//! Payloads, and the deferred evaluators that turn the payload of a node's
//! parent into the node's own.

use crate::error::{Error, ErrorView};
use crate::expr::{
    lazy_map_bag, static_bag, BagExpr, BagExprView, Expr, ExprType, ExprTypeView, ExprView, Type,
    TypeView,
};
use crate::uri::text_of;
use vstd::prelude::*;
use vstd::utf8::{decode_utf8, valid_utf8};

verus! {

/// What a node holds once its path has been replayed.
#[derive(Debug)]
pub enum Payload {
    /// Nothing: the payload of the root and of path nodes.
    Unit,
    /// The bytes of a file.
    Bytes(Vec<u8>),
    /// An expression.
    Expr(Expr),
    /// An expression that makes a bag.
    Bag(BagExpr),
}

/// The mathematical content of a [`Payload`].
pub enum PayloadView {
    Unit,
    Bytes(Seq<u8>),
    Expr(ExprView),
    Bag(BagExprView),
}

impl View for Payload {
    type V = PayloadView;

    open spec fn view(&self) -> PayloadView {
        match self {
            Payload::Unit => PayloadView::Unit,
            Payload::Bytes(bytes) => PayloadView::Bytes(bytes@),
            Payload::Expr(e) => PayloadView::Expr(e@),
            Payload::Bag(bag) => PayloadView::Bag(bag@),
        }
    }
}

/// What reading a file gave: its bytes, or why it could not be read.
pub type FileResult = Result<Vec<u8>, String>;

/// The mathematical content of a [`FileResult`].
pub type FileView = Result<Seq<u8>, Seq<char>>;

/// The content of what reading a file gave.
pub open spec fn file_view(file: FileResult) -> FileView {
    match file {
        Ok(bytes) => Ok(bytes@),
        Err(why) => Err(why@),
    }
}

/// The content of a file that may not have been handed over.
pub open spec fn optional_file_view(file: Option<FileResult>) -> Option<FileView> {
    match file {
        Some(f) => Some(file_view(f)),
        None => None,
    }
}

/// How the payload of a node is made from the payload of its parent.
#[derive(Debug)]
pub enum Evaluator {
    /// Yields the unit payload, whatever comes in.
    Trivial,
    /// Yields a payload that was fixed when the edge was made.
    Constant(Payload),
    /// Yields the bytes of the file at this path, which the caller reads.
    ReadFile(String),
    /// Embeds the file at this path as bytes when the plan's output is
    /// compiled.
    EmbedBytes(String),
    /// Embeds the file at this path as text when the plan's output is
    /// compiled.
    EmbedStr(String),
    /// Writes the bytes that come in as a byte-string literal.
    BytesLiteral,
    /// Writes the bytes that come in, read as UTF-8, as a string literal.
    TextLiteral,
    /// Wraps the expression that comes in into a static bag.
    BagStatic,
    /// Wraps the expression that comes in into a lazy bag.
    BagLazyMap,
    /// Binds the bag that comes in to `name` and maps it, lazily, by the
    /// expression `expr` of type `ty`.
    MapBag { name: String, expr: String, ty: Type },
}

/// The mathematical content of an [`Evaluator`].
pub enum EvaluatorView {
    Trivial,
    Constant(PayloadView),
    ReadFile(Seq<char>),
    EmbedBytes(Seq<char>),
    EmbedStr(Seq<char>),
    BytesLiteral,
    TextLiteral,
    BagStatic,
    BagLazyMap,
    MapBag { name: Seq<char>, expr: Seq<char>, ty: TypeView },
}

impl View for Evaluator {
    type V = EvaluatorView;

    open spec fn view(&self) -> EvaluatorView {
        match self {
            Evaluator::Trivial => EvaluatorView::Trivial,
            Evaluator::Constant(p) => EvaluatorView::Constant(p@),
            Evaluator::ReadFile(path) => EvaluatorView::ReadFile(path@),
            Evaluator::EmbedBytes(path) => EvaluatorView::EmbedBytes(path@),
            Evaluator::EmbedStr(path) => EvaluatorView::EmbedStr(path@),
            Evaluator::BytesLiteral => EvaluatorView::BytesLiteral,
            Evaluator::TextLiteral => EvaluatorView::TextLiteral,
            Evaluator::BagStatic => EvaluatorView::BagStatic,
            Evaluator::BagLazyMap => EvaluatorView::BagLazyMap,
            Evaluator::MapBag { name, expr, ty } => EvaluatorView::MapBag {
                name: name@,
                expr: expr@,
                ty: ty@,
            },
        }
    }
}

/// `proc_macro2::Literal::string`, printed: a string literal for `text`.
/// How the literal is written is left to the crate, which inside a macro
/// expansion hands the work to the compiler; nothing is claimed of it.
#[verifier::external_body]
fn quote_string(text: &str) -> (literal: String) {
    proc_macro2::Literal::string(text).to_string()
}

/// `proc_macro2::Literal::byte_string`, printed: a byte-string literal for
/// `bytes`. How the literal is written is left to the crate, which inside a
/// macro expansion hands the work to the compiler; nothing is claimed of
/// it.
#[verifier::external_body]
fn quote_bytes(bytes: &Vec<u8>) -> (literal: String) {
    proc_macro2::Literal::byte_string(bytes.as_slice()).to_string()
}

/// What an evaluator has written as a literal: a text, or bytes.
#[derive(Debug, PartialEq, Eq)]
pub enum Quoted {
    Text(String),
    Bytes(Vec<u8>),
}

/// The mathematical content of a [`Quoted`].
pub enum QuotedView {
    Text(Seq<char>),
    Bytes(Seq<u8>),
}

impl View for Quoted {
    type V = QuotedView;

    open spec fn view(&self) -> QuotedView {
        match self {
            Quoted::Text(text) => QuotedView::Text(text@),
            Quoted::Bytes(bytes) => QuotedView::Bytes(bytes@),
        }
    }
}

/// The content of something that may have to be written as a literal.
pub open spec fn quoted_view(q: Option<Quoted>) -> Option<QuotedView> {
    match q {
        Some(q) => Some(q@),
        None => None,
    }
}

/// What an evaluator has written as a literal for the payload `input`: the
/// path of a file that is embedded, the bytes that come in, or the text
/// that they are in UTF-8; nothing where the evaluator writes no literal
/// or refuses the payload.
pub open spec fn quoted(ev: EvaluatorView, input: PayloadView) -> Option<QuotedView> {
    match ev {
        EvaluatorView::EmbedBytes(path) => match input {
            PayloadView::Unit => Some(QuotedView::Text(path)),
            _ => None,
        },
        EvaluatorView::EmbedStr(path) => match input {
            PayloadView::Unit => Some(QuotedView::Text(path)),
            _ => None,
        },
        EvaluatorView::BytesLiteral => match input {
            PayloadView::Bytes(bytes) => Some(QuotedView::Bytes(bytes)),
            _ => None,
        },
        EvaluatorView::TextLiteral => match input {
            PayloadView::Bytes(bytes) => if valid_utf8(bytes) {
                Some(QuotedView::Text(decode_utf8(bytes)))
            } else {
                None
            },
            _ => None,
        },
        _ => None,
    }
}

/// The literal for `q` as the `proc_macro2` crate prints it, and no text
/// where there is nothing to write.
pub(crate) fn printed(q: &Option<Quoted>) -> (literal: String) {
    match q {
        Some(Quoted::Text(text)) => quote_string(text.as_str()),
        Some(Quoted::Bytes(bytes)) => quote_bytes(bytes),
        None => String::new(),
    }
}

/// The type `&'static [u8]`.
pub open spec fn static_bytes_type() -> TypeView {
    TypeView { text: "&'static [u8]"@, elem: None }
}

/// The type `&'static str`.
pub open spec fn static_str_type() -> TypeView {
    TypeView { text: "&'static str"@, elem: None }
}

/// An expression without inputs that cannot fail.
pub open spec fn plain_expr(expr: Seq<char>, ty: TypeView) -> ExprView {
    ExprView {
        inputs: Seq::empty(),
        expr,
        yields: ExprTypeView { ok_type: ty, is_result: false },
    }
}

/// The path whose file an evaluator needs, if it needs one.
pub open spec fn reads_spec(ev: EvaluatorView) -> Option<Seq<char>> {
    match ev {
        EvaluatorView::ReadFile(path) => Some(path),
        _ => None,
    }
}

/// What an evaluator makes of the payload `input`, given the file it needs
/// where it needs one, and given `literal`, the printed form of what it
/// has written as a literal where it writes one (see [`quoted`]).
pub open spec fn evaluated(
    ev: EvaluatorView,
    input: PayloadView,
    file: Option<FileView>,
    literal: Seq<char>,
) -> Result<PayloadView, ErrorView> {
    match ev {
        EvaluatorView::Trivial => Ok(PayloadView::Unit),
        EvaluatorView::Constant(p) => Ok(p),
        EvaluatorView::ReadFile(path) => match input {
            PayloadView::Unit => match file {
                Some(Ok(bytes)) => Ok(PayloadView::Bytes(bytes)),
                Some(Err(why)) => Err(ErrorView::Io(why)),
                None => Err(ErrorView::Io("file was not read"@)),
            },
            _ => Err(ErrorView::Cast),
        },
        EvaluatorView::EmbedBytes(path) => match input {
            PayloadView::Unit => Ok(
                PayloadView::Bag(
                    static_bag(
                        plain_expr("include_bytes!("@ + literal + ")"@, static_bytes_type()),
                    ),
                ),
            ),
            _ => Err(ErrorView::Cast),
        },
        EvaluatorView::EmbedStr(path) => match input {
            PayloadView::Unit => Ok(
                PayloadView::Bag(
                    static_bag(plain_expr("include_str!("@ + literal + ")"@, static_str_type())),
                ),
            ),
            _ => Err(ErrorView::Cast),
        },
        EvaluatorView::BytesLiteral => match input {
            PayloadView::Bytes(bytes) => Ok(
                PayloadView::Bag(static_bag(plain_expr(literal, static_bytes_type()))),
            ),
            _ => Err(ErrorView::Cast),
        },
        EvaluatorView::TextLiteral => match input {
            PayloadView::Bytes(bytes) => if valid_utf8(bytes) {
                Ok(PayloadView::Bag(static_bag(plain_expr(literal, static_str_type()))))
            } else {
                Err(ErrorView::NotUtf8)
            },
            _ => Err(ErrorView::Cast),
        },
        EvaluatorView::BagStatic => match input {
            PayloadView::Expr(e) => Ok(PayloadView::Bag(static_bag(e))),
            _ => Err(ErrorView::Cast),
        },
        EvaluatorView::BagLazyMap => match input {
            PayloadView::Expr(e) => Ok(PayloadView::Bag(lazy_map_bag(e))),
            _ => Err(ErrorView::Cast),
        },
        EvaluatorView::MapBag { name, expr, ty } => match input {
            PayloadView::Bag(bag) => Ok(
                PayloadView::Bag(
                    lazy_map_bag(
                        ExprView {
                            inputs: seq![(name, plain_expr(bag.expr, bag.yields))],
                            expr,
                            yields: ExprTypeView { ok_type: ty, is_result: false },
                        },
                    ),
                ),
            ),
            _ => Err(ErrorView::Cast),
        },
    }
}

/// The content of a payload, or of the failure to make one.
pub open spec fn payload_view(out: Result<Payload, Error>) -> Result<PayloadView, ErrorView> {
    match out {
        Ok(p) => Ok(p@),
        Err(e) => Err(e@),
    }
}

impl Evaluator {
    /// The path whose file this evaluator needs, if it needs one.
    pub fn reads(&self) -> (path: Option<&String>)
        ensures
            match path {
                Some(p) => reads_spec(self@) == Some(p@),
                None => reads_spec(self@) is None,
            },
    {
        match self {
            Evaluator::ReadFile(path) => Some(path),
            _ => None,
        }
    }

    /// What the evaluator has written as a literal for the payload `input`:
    /// see [`quoted`].
    pub fn quotes(&self, input: &Payload) -> (q: Option<Quoted>)
        ensures
            quoted_view(q) == quoted(self@, input@),
    {
        match self {
            Evaluator::EmbedBytes(path) => match input {
                Payload::Unit => Some(Quoted::Text(path.clone())),
                _ => None,
            },
            Evaluator::EmbedStr(path) => match input {
                Payload::Unit => Some(Quoted::Text(path.clone())),
                _ => None,
            },
            Evaluator::BytesLiteral => match input {
                Payload::Bytes(bytes) => Some(Quoted::Bytes(bytes.clone())),
                _ => None,
            },
            Evaluator::TextLiteral => match input {
                Payload::Bytes(bytes) => match text_of(bytes.clone()) {
                    Some(text) => Some(Quoted::Text(text)),
                    None => None,
                },
                _ => None,
            },
            _ => None,
        }
    }

    /// Makes the payload of a node from `input`, the payload of its parent.
    /// `file` is what reading the file that the evaluator needs gave, and
    /// `literal` the printed form of what the evaluator has written as a
    /// literal.
    pub fn apply_with(self, input: Payload, file: Option<FileResult>, literal: String) -> (out:
        Result<Payload, Error>)
        ensures
            payload_view(out) == evaluated(self@, input@, optional_file_view(file), literal@),
    {
        match self {
            Evaluator::Trivial => Ok(Payload::Unit),
            Evaluator::Constant(p) => Ok(p),
            Evaluator::ReadFile(_) => match input {
                Payload::Unit => match file {
                    Some(Ok(bytes)) => Ok(Payload::Bytes(bytes)),
                    Some(Err(why)) => Err(Error::Io(why)),
                    None => Err(Error::Io("file was not read".to_owned())),
                },
                _ => Err(Error::Cast),
            },
            Evaluator::EmbedBytes(_) => match input {
                Payload::Unit => {
                    let mut text = "include_bytes!(".to_owned();
                    text.append(literal.as_str());
                    text.append(")");
                    let ty = ExprType::of(Type::named("&'static [u8]"));
                    Ok(Payload::Bag(Expr::from_quote(text, ty).bag_static()))
                },
                _ => Err(Error::Cast),
            },
            Evaluator::EmbedStr(_) => match input {
                Payload::Unit => {
                    let mut text = "include_str!(".to_owned();
                    text.append(literal.as_str());
                    text.append(")");
                    let ty = ExprType::of(Type::named("&'static str"));
                    Ok(Payload::Bag(Expr::from_quote(text, ty).bag_static()))
                },
                _ => Err(Error::Cast),
            },
            Evaluator::BytesLiteral => match input {
                Payload::Bytes(_) => {
                    let ty = ExprType::of(Type::named("&'static [u8]"));
                    Ok(Payload::Bag(Expr::from_quote(literal, ty).bag_static()))
                },
                _ => Err(Error::Cast),
            },
            Evaluator::TextLiteral => match input {
                Payload::Bytes(bytes) => match text_of(bytes) {
                    Some(_) => {
                        let ty = ExprType::of(Type::named("&'static str"));
                        Ok(Payload::Bag(Expr::from_quote(literal, ty).bag_static()))
                    },
                    None => Err(Error::NotUtf8),
                },
                _ => Err(Error::Cast),
            },
            Evaluator::BagStatic => match input {
                Payload::Expr(e) => Ok(Payload::Bag(e.bag_static())),
                _ => Err(Error::Cast),
            },
            Evaluator::BagLazyMap => match input {
                Payload::Expr(e) => Ok(Payload::Bag(e.bag_lazy_map())),
                _ => Err(Error::Cast),
            },
            Evaluator::MapBag { name, expr, ty } => match input {
                Payload::Bag(bag) => {
                    let mut e = Expr::from_quote(expr, ExprType::of(ty));
                    e.bind(name, bag.to_expr());
                    assert(e@.inputs =~= seq![(name@, plain_expr(bag@.expr, bag@.yields))]);
                    Ok(Payload::Bag(e.bag_lazy_map()))
                },
                _ => Err(Error::Cast),
            },
        }
    }

    /// Makes the payload of a node from `input`, the payload of its parent.
    /// `file` is what reading the file that the evaluator needs gave. What
    /// the evaluator has written as a literal is printed by the
    /// `proc_macro2` crate; whatever text that gives, the payload is made
    /// of it as [`evaluated`] says.
    pub fn apply(self, input: Payload, file: Option<FileResult>) -> (out: Result<Payload, Error>)
        ensures
            exists|literal: Seq<char>|
                payload_view(out) == #[trigger] evaluated(
                    self@,
                    input@,
                    optional_file_view(file),
                    literal,
                ),
    {
        let literal = printed(&self.quotes(&input));
        self.apply_with(input, file, literal)
    }
}

} // verus!
