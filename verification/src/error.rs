//! What can go wrong while a request is planned and its plan is replayed.

use crate::flag::{Flag, Flags};
use vstd::prelude::*;

verus! {

/// A failure of planning, of replaying a plan, or of reading a target.
#[derive(Debug, PartialEq, Eq)]
pub enum Error {
    /// A rule said that its edge does not exist, and why.
    Stopped(String),
    /// An edge declared a flag that the request forbids.
    Forbidden(Flag),
    /// A terminal node was reached without a flag that the request requires.
    Missing(Flag),
    /// Every node was explored and none was terminal.
    Exhausted,
    /// A node was asked for its evaluator a second time.
    BacktraceLoop,
    /// An evaluator or a terminal was handed a payload of the wrong kind.
    Cast,
    /// A file could not be read; the text says why.
    Io(String),
    /// Bytes that were to be text are not UTF-8.
    NotUtf8,
    /// A name that is not one of the bag traits.
    NotABag(String),
    /// A target without any bag trait.
    NoTrait,
    /// A bag trait without its type parameter.
    NoParameter(String),
    /// A bag trait with more than one type parameter.
    TooManyParameters(String),
    /// A bag trait whose parameter is not a type; the parameter, then the trait.
    NotAType(String, String),
    /// A target that is not a list of traits joined by `+`.
    NotAList,
}

/// The mathematical content of an [`Error`].
pub enum ErrorView {
    Stopped(Seq<char>),
    Forbidden(Flag),
    Missing(Flag),
    Exhausted,
    BacktraceLoop,
    Cast,
    Io(Seq<char>),
    NotUtf8,
    NotABag(Seq<char>),
    NoTrait,
    NoParameter(Seq<char>),
    TooManyParameters(Seq<char>),
    NotAType(Seq<char>, Seq<char>),
    NotAList,
}

impl View for Error {
    type V = ErrorView;

    open spec fn view(&self) -> ErrorView {
        match self {
            Error::Stopped(why) => ErrorView::Stopped(why@),
            Error::Forbidden(flag) => ErrorView::Forbidden(*flag),
            Error::Missing(flag) => ErrorView::Missing(*flag),
            Error::Exhausted => ErrorView::Exhausted,
            Error::BacktraceLoop => ErrorView::BacktraceLoop,
            Error::Cast => ErrorView::Cast,
            Error::Io(why) => ErrorView::Io(why@),
            Error::NotUtf8 => ErrorView::NotUtf8,
            Error::NotABag(name) => ErrorView::NotABag(name@),
            Error::NoTrait => ErrorView::NoTrait,
            Error::NoParameter(name) => ErrorView::NoParameter(name@),
            Error::TooManyParameters(name) => ErrorView::TooManyParameters(name@),
            Error::NotAType(arg, name) => ErrorView::NotAType(arg@, name@),
            Error::NotAList => ErrorView::NotAList,
        }
    }
}

impl Error {
    /// A copy with the same content.
    pub fn duplicate(&self) -> (copy: Error)
        ensures
            copy@ == self@,
    {
        match self {
            Error::Stopped(why) => Error::Stopped(why.clone()),
            Error::Forbidden(flag) => Error::Forbidden(*flag),
            Error::Missing(flag) => Error::Missing(*flag),
            Error::Exhausted => Error::Exhausted,
            Error::BacktraceLoop => Error::BacktraceLoop,
            Error::Cast => Error::Cast,
            Error::Io(why) => Error::Io(why.clone()),
            Error::NotUtf8 => Error::NotUtf8,
            Error::NotABag(name) => Error::NotABag(name.clone()),
            Error::NoTrait => Error::NoTrait,
            Error::NoParameter(name) => Error::NoParameter(name.clone()),
            Error::TooManyParameters(name) => Error::TooManyParameters(name.clone()),
            Error::NotAType(arg, name) => Error::NotAType(arg.clone(), name.clone()),
            Error::NotAList => Error::NotAList,
        }
    }
}

/// The name of a flag among `names`, or no text for a flag that is not
/// among them.
pub open spec fn flag_text(flag: Flag, names: Seq<Seq<char>>) -> Seq<char> {
    if flag.id() < names.len() {
        names[flag.id() as int]
    } else {
        Seq::empty()
    }
}

/// An error in words, with flags named as in `names`.
pub open spec fn message_text(e: ErrorView, names: Seq<Seq<char>>) -> Seq<char> {
    match e {
        ErrorView::Stopped(why) => why,
        ErrorView::Forbidden(flag) => "no solution without flag \""@ + flag_text(flag, names)
            + "\""@,
        ErrorView::Missing(flag) => "no solution with flag \""@ + flag_text(flag, names) + "\""@,
        ErrorView::Exhausted => "no solution (try adding more bagger plugins!)"@,
        ErrorView::BacktraceLoop => "backtrace loop"@,
        ErrorView::Cast => "could not cast edge"@,
        ErrorView::Io(why) => why,
        ErrorView::NotUtf8 => "stream did not contain valid UTF-8"@,
        ErrorView::NotABag(name) => "trait \""@ + name + "\" is not a bag"@,
        ErrorView::NoTrait => "bag trait is missing"@,
        ErrorView::NoParameter(name) => "\""@ + name + "\" must take have a type parameter"@,
        ErrorView::TooManyParameters(name) => "\""@ + name + "\" has too many type parameters"@,
        ErrorView::NotAType(arg, name) => "parameter \""@ + arg + "\" on \""@ + name
            + "\" is not a type"@,
        ErrorView::NotAList => "target is not a plus-deliniated list of traits"@,
    }
}

impl Error {
    /// The error in words. Flags are named as `flags` names them.
    pub fn message(&self, flags: &Flags) -> (text: String)
        ensures
            text@ == message_text(self@, flags.names()),
    {
        match self {
            Error::Stopped(why) => why.clone(),
            Error::Forbidden(flag) => {
                let mut text = "no solution without flag \"".to_owned();
                text.append(flag_name(*flag, flags).as_str());
                text.append("\"");
                text
            },
            Error::Missing(flag) => {
                let mut text = "no solution with flag \"".to_owned();
                text.append(flag_name(*flag, flags).as_str());
                text.append("\"");
                text
            },
            Error::Exhausted => "no solution (try adding more bagger plugins!)".to_owned(),
            Error::BacktraceLoop => "backtrace loop".to_owned(),
            Error::Cast => "could not cast edge".to_owned(),
            Error::Io(why) => why.clone(),
            Error::NotUtf8 => "stream did not contain valid UTF-8".to_owned(),
            Error::NotABag(name) => {
                let mut text = "trait \"".to_owned();
                text.append(name.as_str());
                text.append("\" is not a bag");
                text
            },
            Error::NoTrait => "bag trait is missing".to_owned(),
            Error::NoParameter(name) => {
                let mut text = "\"".to_owned();
                text.append(name.as_str());
                text.append("\" must take have a type parameter");
                text
            },
            Error::TooManyParameters(name) => {
                let mut text = "\"".to_owned();
                text.append(name.as_str());
                text.append("\" has too many type parameters");
                text
            },
            Error::NotAType(arg, name) => {
                let mut text = "parameter \"".to_owned();
                text.append(arg.as_str());
                text.append("\" on \"");
                text.append(name.as_str());
                text.append("\" is not a type");
                text
            },
            Error::NotAList => "target is not a plus-deliniated list of traits".to_owned(),
        }
    }
}

/// The name of `flag` in `flags`, or no text if `flags` does not know it.
fn flag_name(flag: Flag, flags: &Flags) -> (name: String)
    ensures
        name@ == flag_text(flag, flags.names()),
{
    match flags.name_of(flag) {
        Some(name) => name,
        None => String::new(),
    }
}

} // verus!
