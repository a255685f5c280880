//! The rules that every bagger starts with: from a request to a local
//! path, from the path to the file's bytes or to an embedding of the file,
//! and from there to bags of bytes and of text, borrowed and owned.

use crate::error::{Error, ErrorView};
use crate::eval::{Evaluator, EvaluatorView};
use crate::expr::{named_type, satisfies_spec, slice_type, BagInfo, BagTrait, Capability, Type};
use crate::flag::{interned, Flag, Flags};
use crate::mime::{guessed, parsed, Mime, MimeView};
use crate::nodes::{LocalPath, LocalRead, NodeKind, NodeKindView, Producer};
use crate::solver::{
    emitted_all, lemma_emitted_one, lemma_emitted_push, lemma_emitted_two, EdgeBuilder, EdgeView,
    Edges, NodeInput, Proposal, Terminal, TransformInstance,
};
use crate::Bagger;
use vstd::prelude::*;

verus! {

/// One of the built-in rules.
pub enum Builtin {
    /// From a request to the local path it names; stopped unless the
    /// scheme is absent, `file` or `files`.
    RequestToLocalPath,
    /// From a local path to the bytes of the file, with the media type
    /// that the argument `content` gives or, failing that, the path.
    LocalPathToLocalRead { content: Flag },
    /// From a local path to producers of bytes and of text that embed the
    /// file when the output is compiled. Both edges declare the two flags;
    /// the text edge is stopped unless the media type is text.
    LocalPathToProducer { is_static: Flag, is_embedded: Flag, content: Flag },
    /// From the bytes of a file to producers of bytes and of text that hold
    /// them as literals. Both edges declare the flag; the text edge is
    /// stopped unless the media type is text.
    LocalReadToProducer { is_static: Flag },
    /// From a producer of `str` to a producer of `String`.
    StrToString,
    /// From a producer of a slice to a producer of a `Vec`.
    SliceToVec,
}

/// An edge as a rule finds it before it says anything of it.
pub open spec fn plain_edge() -> EdgeView {
    EdgeView { priority: 0, satis: Set::empty(), stops: None, value: None }
}

/// Whether a scheme names the file system.
pub open spec fn local_scheme(scheme: Option<Seq<char>>) -> bool {
    match scheme {
        None => true,
        Some(s) => s == "file"@ || s == "files"@,
    }
}

/// The media type of the file at `path`: what the argument `content` says
/// where it is given and parses, else what the path suggests.
pub open spec fn mime_of(args: Map<Flag, Seq<char>>, content: Flag, path: Seq<char>) -> MimeView {
    if args.contains_key(content) {
        match parsed(args[content]) {
            Some(mime) => mime,
            None => guessed(path),
        }
    } else {
        guessed(path)
    }
}

/// The capabilities of a bag of bytes with static lifetime.
pub open spec fn bytes_caps() -> Seq<Capability> {
    seq![
        (BagTrait::Simple, slice_type("u8"@)),
        (BagTrait::Unbag, named_type("&'static [u8]"@)),
    ]
}

/// The capabilities of a bag of text with static lifetime.
pub open spec fn str_caps() -> Seq<Capability> {
    seq![(BagTrait::Simple, named_type("str"@)), (BagTrait::Unbag, named_type("&'static str"@))]
}

/// The capabilities of a bag that holds, and gives up, a `ty`.
pub open spec fn owned_caps(ty: Seq<char>) -> Seq<Capability> {
    seq![(BagTrait::Simple, named_type(ty)), (BagTrait::Unbag, named_type(ty))]
}

/// A reason to stop an edge, where `stop` holds.
pub open spec fn stopped_if(stop: bool, why: Seq<char>) -> Option<ErrorView> {
    if stop {
        Some(ErrorView::Stopped(why))
    } else {
        None
    }
}

/// The edge of [`Builtin::RequestToLocalPath`].
pub open spec fn request_edges(node: NodeKindView) -> Seq<Proposal> {
    match node {
        NodeKindView::Request(uri) => seq![
            (
                NodeKindView::LocalPath(uri.path),
                EdgeView {
                    stops: stopped_if(
                        !local_scheme(uri.scheme),
                        "scheme does not reference the file system"@,
                    ),
                    ..plain_edge()
                },
            ),
        ],
        _ => Seq::empty(),
    }
}

/// The edge of [`Builtin::LocalPathToLocalRead`].
pub open spec fn read_edges(content: Flag, args: Map<Flag, Seq<char>>, node: NodeKindView) -> Seq<
    Proposal,
> {
    match node {
        NodeKindView::LocalPath(path) => seq![
            (
                NodeKindView::LocalRead(mime_of(args, content, path)),
                EdgeView { value: Some(EvaluatorView::ReadFile(path)), ..plain_edge() },
            ),
        ],
        _ => Seq::empty(),
    }
}

/// The edges of [`Builtin::LocalPathToProducer`].
pub open spec fn embed_edges(
    is_static: Flag,
    is_embedded: Flag,
    content: Flag,
    args: Map<Flag, Seq<char>>,
    node: NodeKindView,
) -> Seq<Proposal> {
    match node {
        NodeKindView::LocalPath(path) => seq![
            (
                NodeKindView::Producer(bytes_caps()),
                EdgeView {
                    priority: 0,
                    satis: set![is_static, is_embedded],
                    stops: None,
                    value: Some(EvaluatorView::EmbedBytes(path)),
                },
            ),
            (
                NodeKindView::Producer(str_caps()),
                EdgeView {
                    priority: 0,
                    satis: set![is_static, is_embedded],
                    stops: stopped_if(
                        !Mime::is_text_spec(mime_of(args, content, path)),
                        "file content is not text"@,
                    ),
                    value: Some(EvaluatorView::EmbedStr(path)),
                },
            ),
        ],
        _ => Seq::empty(),
    }
}

/// The edges of [`Builtin::LocalReadToProducer`].
pub open spec fn literal_edges(is_static: Flag, node: NodeKindView) -> Seq<Proposal> {
    match node {
        NodeKindView::LocalRead(mime) => seq![
            (
                NodeKindView::Producer(bytes_caps()),
                EdgeView {
                    priority: 0,
                    satis: set![is_static],
                    stops: None,
                    value: Some(EvaluatorView::BytesLiteral),
                },
            ),
            (
                NodeKindView::Producer(str_caps()),
                EdgeView {
                    priority: 0,
                    satis: set![is_static],
                    stops: stopped_if(!Mime::is_text_spec(mime), "read content is not text"@),
                    value: Some(EvaluatorView::TextLiteral),
                },
            ),
        ],
        _ => Seq::empty(),
    }
}

/// The edge to a bag that owns a `ty`, made from the bag that comes in by
/// the expression `expr` over the name `name`.
pub open spec fn owned_edge(name: Seq<char>, expr: Seq<char>, ty: Seq<char>) -> Proposal {
    (
        NodeKindView::Producer(owned_caps(ty)),
        EdgeView {
            value: Some(EvaluatorView::MapBag { name, expr, ty: named_type(ty) }),
            ..plain_edge()
        },
    )
}

/// The edge of [`Builtin::StrToString`].
pub open spec fn string_edges(node: NodeKindView) -> Seq<Proposal> {
    match node {
        NodeKindView::Producer(caps) => if satisfies_spec(
            caps.to_set(),
            set![(BagTrait::Simple, named_type("str"@))],
        ) {
            seq![owned_edge("chars"@, "::bag::Bag::<str>::get(&chars).to_owned()"@, "String"@)]
        } else {
            Seq::empty()
        },
        _ => Seq::empty(),
    }
}

/// The edges of [`Builtin::SliceToVec`] for the first `upto` capabilities
/// of a producer: one for each `Bag` of a slice, in order.
pub open spec fn vec_edges(caps: Seq<Capability>, upto: nat) -> Seq<Proposal>
    decreases upto,
{
    if upto == 0 || upto > caps.len() {
        Seq::empty()
    } else {
        let before = vec_edges(caps, (upto - 1) as nat);
        let cap = caps[upto - 1];
        match cap.1.elem {
            Some(elem) => if cap.0 == BagTrait::Simple {
                before.push(
                    owned_edge(
                        "elems"@,
                        "::bag::Bag::<[_]>::get(&elems).to_owned()"@,
                        "Vec<"@ + elem + ">"@,
                    ),
                )
            } else {
                before
            },
            None => before,
        }
    }
}

/// The edges of [`Builtin::SliceToVec`].
pub open spec fn slice_edges(node: NodeKindView) -> Seq<Proposal> {
    match node {
        NodeKindView::Producer(caps) => vec_edges(caps, caps.len()),
        _ => Seq::empty(),
    }
}

/// The media type of the file at `path`: see [`mime_of`].
fn get_mime(input: &NodeInput, content: Flag, path: &String) -> (mime: Mime)
    ensures
        mime@ == mime_of(input.args@, content, path@),
{
    let declared = match input.arg(content) {
        Some(text) => Mime::parse(text.as_str()),
        None => None,
    };
    Mime::first_of(declared, Mime::guess(path.as_str()))
}

/// Whether the scheme of a locator names the file system.
fn is_local(scheme: &Option<String>) -> (local: bool)
    ensures
        local == local_scheme(crate::uri::text_view(*scheme)),
{
    match scheme {
        None => true,
        Some(s) => *s == "file".to_owned() || *s == "files".to_owned(),
    }
}

/// A descriptor of a bag of bytes with static lifetime.
fn bytes_info() -> (info: BagInfo)
    ensures
        info.wf(),
        info.order() == bytes_caps(),
{
    BagInfo::simple(Type::slice("u8"), Some(Type::named("&'static [u8]")))
}

/// A descriptor of a bag of text with static lifetime.
fn str_info() -> (info: BagInfo)
    ensures
        info.wf(),
        info.order() == str_caps(),
{
    BagInfo::simple(Type::named("str"), Some(Type::named("&'static str")))
}

/// Adds the edge to a bag that owns a `ty`: see [`owned_edge`].
fn add_owned(edges: &mut Edges, name: &str, expr: &str, ty: String)
    requires
        old(edges).wf(),
    ensures
        final(edges).wf(),
        final(edges)@ == crate::solver::emitted(
            old(edges)@,
            owned_edge(name@, expr@, ty@).0,
            owned_edge(name@, expr@, ty@).1,
        ),
{
    let owned = BagInfo::simple(
        Type { text: ty.clone(), elem: None },
        Some(Type { text: ty.clone(), elem: None }),
    );
    let mut edge = EdgeBuilder::new();
    edge.value(
        Evaluator::MapBag {
            name: name.to_owned(),
            expr: expr.to_owned(),
            ty: Type { text: ty, elem: None },
        },
    );
    edges.add(NodeKind::Producer(Producer(owned)), edge);
}

impl Builtin {
    /// Request -> LocalPath
    fn from_request(input: &NodeInput, edges: &mut Edges)
        requires
            input.node.wf(),
            old(edges).wf(),
        ensures
            final(edges).wf(),
            final(edges)@ == emitted_all(old(edges)@, request_edges(input.node@)),
    {
        if let NodeKind::Request(request) = input.node {
            let ghost want = request_edges(input.node@);
            proof {
                lemma_emitted_one(edges@, want[0]);
                assert(want =~= seq![want[0]]);
            }
            let uri = &request.0;
            let path = uri.path.clone();
            let mut edge = EdgeBuilder::new();
            if !is_local(&uri.scheme) {
                edge.stop(
                    Error::Stopped("scheme does not reference the file system".to_owned()),
                );
            }
            edges.add(NodeKind::LocalPath(LocalPath(path)), edge);
        }
    }

    /// LocalPath -> LocalRead
    fn from_path_read(content: Flag, input: &NodeInput, edges: &mut Edges)
        requires
            input.node.wf(),
            old(edges).wf(),
        ensures
            final(edges).wf(),
            final(edges)@ == emitted_all(old(edges)@, read_edges(content, input.args@, input.node@)),
    {
        let ghost want = read_edges(content, input.args@, input.node@);
        if let NodeKind::LocalPath(local) = input.node {
            proof {
                lemma_emitted_one(edges@, want[0]);
                assert(want =~= seq![want[0]]);
            }
            // build edge
            let mut edge = EdgeBuilder::new();
            // read file
            edge.value(Evaluator::ReadFile(local.0.clone()));
            // append edge
            let mime = get_mime(input, content, &local.0);
            edges.add(NodeKind::LocalRead(LocalRead(mime)), edge);
        }
    }

    /// LocalPath -> Producer<[u8]>, Producer<str>
    fn from_path_embed(
        is_static: Flag,
        is_embedded: Flag,
        content: Flag,
        input: &NodeInput,
        edges: &mut Edges,
    )
        requires
            input.node.wf(),
            old(edges).wf(),
        ensures
            final(edges).wf(),
            final(edges)@ == emitted_all(
                old(edges)@,
                embed_edges(is_static, is_embedded, content, input.args@, input.node@),
            ),
    {
        let ghost want = embed_edges(is_static, is_embedded, content, input.args@, input.node@);
        if let NodeKind::LocalPath(local) = input.node {
            proof {
                lemma_emitted_two(edges@, want[0], want[1]);
                assert(want =~= seq![want[0], want[1]]);
            }
            let mut bytes_edge = EdgeBuilder::new();
            bytes_edge.satisfies_flag(is_static);
            bytes_edge.satisfies_flag(is_embedded);

            let mut str_edge = EdgeBuilder::new();
            if !get_mime(input, content, &local.0).is_text() {
                str_edge.stop(Error::Stopped("file content is not text".to_owned()));
            }
            str_edge.satisfies_flag(is_static);
            str_edge.satisfies_flag(is_embedded);

            bytes_edge.value(Evaluator::EmbedBytes(local.0.clone()));
            str_edge.value(Evaluator::EmbedStr(local.0.clone()));

            edges.add(NodeKind::Producer(Producer(bytes_info())), bytes_edge);
            edges.add(NodeKind::Producer(Producer(str_info())), str_edge);
        }
    }

    /// LocalRead -> Producer<[u8]>, Producer<str>
    fn from_read(is_static: Flag, input: &NodeInput, edges: &mut Edges)
        requires
            input.node.wf(),
            old(edges).wf(),
        ensures
            final(edges).wf(),
            final(edges)@ == emitted_all(old(edges)@, literal_edges(is_static, input.node@)),
    {
        let ghost want = literal_edges(is_static, input.node@);
        if let NodeKind::LocalRead(read) = input.node {
            proof {
                lemma_emitted_two(edges@, want[0], want[1]);
                assert(want =~= seq![want[0], want[1]]);
            }
            // embed byte string
            let mut edge = EdgeBuilder::new();
            edge.satisfies_flag(is_static);
            edge.value(Evaluator::BytesLiteral);
            edges.add(NodeKind::Producer(Producer(bytes_info())), edge);

            let mut edge = EdgeBuilder::new();
            edge.satisfies_flag(is_static);
            edge.value(Evaluator::TextLiteral);
            if !read.0.is_text() {
                edge.stop(Error::Stopped("read content is not text".to_owned()));
            }
            edges.add(NodeKind::Producer(Producer(str_info())), edge);
        }
    }

    /// Producer<str> -> Producer<String>
    fn from_str_producer(input: &NodeInput, edges: &mut Edges)
        requires
            input.node.wf(),
            old(edges).wf(),
        ensures
            final(edges).wf(),
            final(edges)@ == emitted_all(old(edges)@, string_edges(input.node@)),
    {
        let ghost want = string_edges(input.node@);
        if let NodeKind::Producer(producer) = input.node {
            let slice_info = BagInfo::simple(Type::named("str"), None);
            if producer.0.satisfies(&slice_info) {
                proof {
                    lemma_emitted_one(edges@, want[0]);
                    assert(want =~= seq![want[0]]);
                }
                add_owned(
                    edges,
                    "chars",
                    "::bag::Bag::<str>::get(&chars).to_owned()",
                    "String".to_owned(),
                );
            }
        }
    }

    /// Producer<[T]> -> Producer<Vec<T>>
    fn from_slice_producer(input: &NodeInput, edges: &mut Edges)
        requires
            input.node.wf(),
            old(edges).wf(),
        ensures
            final(edges).wf(),
            final(edges)@ == emitted_all(old(edges)@, slice_edges(input.node@)),
    {
        if let NodeKind::Producer(producer) = input.node {
            let info = &producer.0;
            let ghost caps = info.order();
            let mut i: usize = 0;
            let n = info.len();
            while i < n
                invariant
                    i <= n,
                    n == caps.len(),
                    caps == info.order(),
                    edges.wf(),
                    edges@ == emitted_all(old(edges)@, vec_edges(caps, i as nat)),
                decreases n - i,
            {
                let ty = info.type_at(i);
                if info.trait_at(i) == BagTrait::Simple {
                    if let Some(elem) = &ty.elem {
                        let mut vec_ty = "Vec<".to_owned();
                        vec_ty.append(elem.as_str());
                        vec_ty.append(">");
                        proof {
                            lemma_emitted_push(
                                old(edges)@,
                                vec_edges(caps, i as nat),
                                owned_edge(
                                    "elems"@,
                                    "::bag::Bag::<[_]>::get(&elems).to_owned()"@,
                                    vec_ty@,
                                ),
                            );
                        }
                        add_owned(
                            edges,
                            "elems",
                            "::bag::Bag::<[_]>::get(&elems).to_owned()",
                            vec_ty,
                        );
                    }
                }
                i += 1;
            }
        }
    }
}

impl TransformInstance for Builtin {
    open spec fn edges(&self, args: Map<Flag, Seq<char>>, node: NodeKindView) -> Seq<Proposal> {
        match self {
            Builtin::RequestToLocalPath => request_edges(node),
            Builtin::LocalPathToLocalRead { content } => read_edges(*content, args, node),
            Builtin::LocalPathToProducer { is_static, is_embedded, content } => embed_edges(
                *is_static,
                *is_embedded,
                *content,
                args,
                node,
            ),
            Builtin::LocalReadToProducer { is_static } => literal_edges(*is_static, node),
            Builtin::StrToString => string_edges(node),
            Builtin::SliceToVec => slice_edges(node),
        }
    }

    fn apply(&self, input: &NodeInput, edges: &mut Edges) {
        match self {
            Builtin::RequestToLocalPath => Builtin::from_request(input, edges),
            Builtin::LocalPathToLocalRead { content } => Builtin::from_path_read(
                *content,
                input,
                edges,
            ),
            Builtin::LocalPathToProducer { is_static, is_embedded, content } => {
                Builtin::from_path_embed(*is_static, *is_embedded, *content, input, edges)
            },
            Builtin::LocalReadToProducer { is_static } => Builtin::from_read(
                *is_static,
                input,
                edges,
            ),
            Builtin::StrToString => Builtin::from_str_producer(input, edges),
            Builtin::SliceToVec => Builtin::from_slice_producer(input, edges),
        }
    }
}

/// A rule of a planner: one of the built-in rules, or one of the kind that
/// its user registers.
pub enum Rule<R> {
    Builtin(Builtin),
    Custom(R),
}

impl<R: TransformInstance> TransformInstance for Rule<R> {
    open spec fn edges(&self, args: Map<Flag, Seq<char>>, node: NodeKindView) -> Seq<Proposal> {
        match self {
            Rule::Builtin(rule) => rule.edges(args, node),
            Rule::Custom(rule) => rule.edges(args, node),
        }
    }

    fn apply(&self, input: &NodeInput, edges: &mut Edges) {
        match self {
            Rule::Builtin(rule) => rule.apply(input, edges),
            Rule::Custom(rule) => rule.apply(input, edges),
        }
    }
}

/// The names in a registry after the flags that the built-in rules speak
/// of are interned in it: `static`, `include` and `content`, in this order.
pub open spec fn builtin_names(names: Seq<Seq<char>>) -> Seq<Seq<char>> {
    interned(interned(interned(names, "static"@).0, "include"@).0, "content"@).0
}

/// The built-in rules in the order in which they are registered, for a
/// registry that held `names` before their flags were interned in it.
pub open spec fn builtin_rules<R>(names: Seq<Seq<char>>) -> Seq<Rule<R>> {
    let is_static = Flag::at(interned(names, "static"@).1);
    let with_static = interned(names, "static"@).0;
    let is_embedded = Flag::at(interned(with_static, "include"@).1);
    let with_embedded = interned(with_static, "include"@).0;
    let content = Flag::at(interned(with_embedded, "content"@).1);
    seq![
        Rule::Builtin(Builtin::RequestToLocalPath),
        Rule::Builtin(Builtin::LocalPathToLocalRead { content }),
        Rule::Builtin(Builtin::LocalPathToProducer { is_static, is_embedded, content }),
        Rule::Builtin(Builtin::LocalReadToProducer { is_static }),
        Rule::Builtin(Builtin::StrToString),
        Rule::Builtin(Builtin::SliceToVec),
    ]
}

/// Registers the built-in rules with `bggr`, after the rules it has. The
/// flags `static`, `include` and `content`, which the rules speak of, are
/// interned in `flags` in this order.
pub fn register_builtins<R: TransformInstance, T: Terminal>(
    bggr: &mut Bagger<R, T>,
    flags: &mut Flags,
)
    requires
        old(flags).wf(),
    ensures
        final(flags).wf(),
        final(flags).names() == builtin_names(old(flags).names()),
        final(bggr).terminals() == old(bggr).terminals(),
        final(bggr).rules() == old(bggr).rules() + builtin_rules::<R>(old(flags).names()),
{
    let is_static = Flag::from_str(flags, "static");
    let is_embedded = Flag::from_str(flags, "include");
    let content = Flag::from_str(flags, "content");

    // Request -> LocalPath
    bggr.register(Rule::Builtin(Builtin::RequestToLocalPath));
    // LocalPath -> LocalRead
    bggr.register(Rule::Builtin(Builtin::LocalPathToLocalRead { content }));
    // LocalPath -> Producer<[u8]>, Producer<str>
    bggr.register(Rule::Builtin(Builtin::LocalPathToProducer { is_static, is_embedded, content }));
    // LocalRead -> Producer<[u8]>, Producer<str>
    bggr.register(Rule::Builtin(Builtin::LocalReadToProducer { is_static }));
    // Producer<str> -> Producer<String>
    bggr.register(Rule::Builtin(Builtin::StrToString));
    // Producer<[T]> -> Producer<Vec<T>>
    bggr.register(Rule::Builtin(Builtin::SliceToVec));
    assert(bggr.rules() =~= old(bggr).rules() + builtin_rules::<R>(old(flags).names()));
}

} // verus!
