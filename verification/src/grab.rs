//! Names of assets: absolute URLs and relative paths.

use vstd::prelude::*;

verus! {

/// Identifies a grab: two numbers that together are unique.
#[derive(Debug, Copy, Clone, PartialEq, Eq, PartialOrd, Ord, Hash)]
pub struct Uid(pub usize, pub usize);

/// Why a string is no URL.
#[derive(Debug, Clone, PartialEq, Eq)]
pub enum UrlError {
    /// The string is a relative URL, and there is no base to resolve it
    /// against.
    RelativeUrlWithoutBase,
    /// Any other fault, in the words of the `url` crate.
    Invalid(String),
}

/// The mathematical content of a [`UrlError`]: nothing for a relative URL
/// without a base, else the words for the fault.
pub type UrlErrorView = Option<Seq<char>>;

impl View for UrlError {
    type V = UrlErrorView;

    open spec fn view(&self) -> UrlErrorView {
        match self {
            UrlError::RelativeUrlWithoutBase => None,
            UrlError::Invalid(why) => Some(why@),
        }
    }
}

/// The content of a URL's text, or of the failure to make one.
pub open spec fn url_view(r: Result<String, UrlError>) -> Result<Seq<char>, UrlErrorView> {
    match r {
        Ok(url) => Ok(url@),
        Err(e) => Err(e@),
    }
}

/// What the `url` crate makes of a string: the URL in its normal form, or
/// the fault.
pub uninterp spec fn parsed_url(text: Seq<char>) -> Result<Seq<char>, UrlErrorView>;

/// What the `url` crate makes of a string that is resolved against a base:
/// the URL in its normal form, or the fault, which may lie in the base.
pub uninterp spec fn joined_url(base: Seq<char>, text: Seq<char>) -> Result<
    Seq<char>,
    UrlErrorView,
>;

/// `url::Url::parse`: the URL that `text` is, as the crate writes it, or
/// the crate's error, of which one kind is told apart.
#[verifier::external_body]
fn parse_url(text: &str) -> (url: Result<String, UrlError>)
    ensures
        url_view(url) == parsed_url(text@),
{
    match url::Url::parse(text) {
        Ok(url) => Ok(String::from(url)),
        Err(url::ParseError::RelativeUrlWithoutBase) => Err(UrlError::RelativeUrlWithoutBase),
        Err(e) => Err(UrlError::Invalid(e.to_string())),
    }
}

/// `url::Url::join`: the URL that `text` is when it is resolved against the
/// URL `base`, as the crate writes it, or the crate's error, of which one
/// kind is told apart. The base is handed over as text and parsed first; a
/// fault in it is the result.
#[verifier::external_body]
fn join_url(base: &str, text: &str) -> (url: Result<String, UrlError>)
    ensures
        url_view(url) == joined_url(base@, text@),
{
    let joined = match url::Url::parse(base) {
        Ok(base) => base.join(text),
        Err(e) => Err(e),
    };
    match joined {
        Ok(url) => Ok(String::from(url)),
        Err(url::ParseError::RelativeUrlWithoutBase) => Err(UrlError::RelativeUrlWithoutBase),
        Err(e) => Err(UrlError::Invalid(e.to_string())),
    }
}

/// Whether a URL begins as every URL of the `file` scheme does that the
/// `url` crate makes from a path.
pub open spec fn is_file_url(url: Seq<char>) -> bool {
    "file://"@.is_prefix_of(url)
}

/// `url::Url::from_file_path`: the `file` URL of an absolute path, as the
/// crate writes it on this platform, and nothing for any other path. Which
/// paths are absolute, and how the URL goes on, depends on the platform;
/// on every platform the crate starts the URL with `file://` and only adds
/// to it.
#[verifier::external_body]
fn file_url(path: &str) -> (url: Option<String>)
    ensures
        url matches Some(u) ==> is_file_url(u@),
{
    url::Url::from_file_path(path).ok().map(String::from)
}

/// A generalized path object. Can be local or remote, absolute or
/// relative.
#[derive(Debug, Clone, PartialEq, Eq, Hash)]
pub enum Name {
    /// An absolute path: a URL in its normal form.
    Absolute(String),
    /// A relative path.
    Relative(String),
}

/// The mathematical content of a [`Name`].
pub enum NameView {
    Absolute(Seq<char>),
    Relative(Seq<char>),
}

impl View for Name {
    type V = NameView;

    open spec fn view(&self) -> NameView {
        match self {
            Name::Absolute(url) => NameView::Absolute(url@),
            Name::Relative(path) => NameView::Relative(path@),
        }
    }
}

/// The content of a name, or of the failure to make one.
pub open spec fn name_view(r: Result<Name, UrlError>) -> Result<NameView, UrlErrorView> {
    match r {
        Ok(name) => Ok(name@),
        Err(e) => Err(e@),
    }
}

/// The name that a string is, given what it parses to: the URL where it is
/// one, the string itself as a relative path where it is a relative URL,
/// and no name where it is faulty in another way.
pub open spec fn named(parsed: Result<Seq<char>, UrlErrorView>, val: Seq<char>) -> Result<
    NameView,
    UrlErrorView,
> {
    match parsed {
        Ok(url) => Ok(NameView::Absolute(url)),
        Err(None) => Ok(NameView::Relative(val)),
        Err(Some(why)) => Err(Some(why)),
    }
}

/// The name of a file, given the URL of its path where it has one.
pub open spec fn filed(url: Option<Seq<char>>, path: Seq<char>) -> NameView {
    match url {
        Some(url) => NameView::Absolute(url),
        None => NameView::Relative(path),
    }
}

impl Name {
    /// The name that `val` is, given what parsing it as a URL gave: see
    /// [`named`].
    pub fn from_parsed(parsed: Result<String, UrlError>, val: &str) -> (name: Result<
        Name,
        UrlError,
    >)
        ensures
            name_view(name) == named(url_view(parsed), val@),
    {
        match parsed {
            Ok(url) => Ok(Name::Absolute(url)),
            Err(UrlError::RelativeUrlWithoutBase) => Ok(Name::Relative(val.to_owned())),
            Err(e) => Err(e),
        }
    }

    /// Create a path from the given URI string.
    pub fn new(val: &str) -> (name: Result<Name, UrlError>)
        ensures
            name_view(name) == named(parsed_url(val@), val@),
    {
        Name::from_parsed(parse_url(val), val)
    }

    /// The name of the file at `path`, given the `file` URL of the path
    /// where it has one: see [`filed`].
    pub fn from_file_url(url: Option<String>, path: &str) -> (name: Name)
        ensures
            name@ == filed(crate::uri::text_view(url), path@),
    {
        match url {
            Some(url) => Name::Absolute(url),
            None => Name::Relative(path.to_owned()),
        }
    }

    /// Create a new file path: the `file` URL of `path` where it has one,
    /// which depends on the platform, and else `path` itself as a relative
    /// path.
    pub fn file(path: &str) -> (name: Name)
        ensures
            match name@ {
                NameView::Absolute(url) => is_file_url(url),
                NameView::Relative(p) => p == path@,
            },
    {
        Name::from_file_url(file_url(path), path)
    }

    /// If the path is relative, join it to the given base URL. Otherwise
    /// return it.
    pub fn within(self, base: &str) -> (url: Result<String, UrlError>)
        ensures
            url_view(url) == match self@ {
                NameView::Absolute(url) => Ok(url),
                NameView::Relative(path) => joined_url(base@, path),
            },
    {
        match self {
            Name::Absolute(url) => Ok(url),
            Name::Relative(path) => join_url(base, path.as_str()),
        }
    }
}

} // verus!
