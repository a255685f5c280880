//! Media types, as far as the planner reads them.

use vstd::prelude::*;

verus! {

/// A media type: its top-level type and its subtype, in lower case.
#[derive(Debug, Clone, PartialEq, Eq)]
pub struct Mime {
    pub top: String,
    pub sub: String,
}

/// The mathematical content of a [`Mime`].
pub struct MimeView {
    pub top: Seq<char>,
    pub sub: Seq<char>,
}

impl View for Mime {
    type V = MimeView;

    open spec fn view(&self) -> MimeView {
        MimeView { top: self.top@, sub: self.sub@ }
    }
}

/// The top-level type and the subtype that the `mime` crate reads from a
/// media-type string, if it reads one.
pub uninterp spec fn parsed_mime(text: Seq<char>) -> Option<(Seq<char>, Seq<char>)>;

/// The top-level type and the subtype of the first media type that the
/// table of the `mime_guess` crate holds for an extension, if it holds one.
pub uninterp spec fn guessed_mime(ext: Seq<char>) -> Option<(Seq<char>, Seq<char>)>;

/// The last position of `c` in `text`, or -1 where it does not occur.
pub open spec fn last_of(text: Seq<char>, c: char) -> int
    decreases text.len(),
{
    if text.len() == 0 {
        -1
    } else if text.last() == c {
        text.len() - 1
    } else {
        last_of(text.drop_last(), c)
    }
}

/// The extension of a path: what follows the last `.` of its last
/// component, where that `.` is not the first character of the component;
/// nothing where there is no such `.`. Components are separated by `/`,
/// whatever the platform.
pub open spec fn extension(path: Seq<char>) -> Seq<char> {
    let name = path.skip(last_of(path, '/') + 1);
    let dot = last_of(name, '.');
    if dot > 0 {
        name.skip(dot + 1)
    } else {
        Seq::empty()
    }
}

/// The media type of data of unknown kind: `application/octet-stream`.
pub open spec fn octet_stream() -> MimeView {
    MimeView { top: "application"@, sub: "octet-stream"@ }
}

/// The media type that `text` parses as, if it does.
pub open spec fn parsed(text: Seq<char>) -> Option<MimeView> {
    match parsed_mime(text) {
        Some((top, sub)) => Some(MimeView { top, sub }),
        None => None,
    }
}

/// The media type guessed for an extension: the first that is known for
/// it, else that of data of unknown kind.
pub open spec fn guessed_for(ext: Seq<char>) -> MimeView {
    match guessed_mime(ext) {
        Some((top, sub)) => MimeView { top, sub },
        None => octet_stream(),
    }
}

/// The media type guessed for `path`, which is that for its extension.
pub open spec fn guessed(path: Seq<char>) -> MimeView {
    guessed_for(extension(path))
}

/// `<mime::Mime as FromStr>::from_str`: the media type that `text` parses
/// as, reduced to its top-level type and subtype; nothing where the crate
/// rejects the text.
#[verifier::external_body]
fn parse_mime(text: &str) -> (mime: Option<Mime>)
    ensures
        match mime {
            Some(m) => parsed_mime(text@) == Some((m.top@, m.sub@)),
            None => parsed_mime(text@) is None,
        },
{
    match text.parse::<mime::Mime>() {
        Ok(m) => Some(
            Mime { top: m.type_().as_str().to_owned(), sub: m.subtype().as_str().to_owned() },
        ),
        Err(_) => None,
    }
}

/// `mime_guess::from_ext`, and `MimeGuess::first` on what it gives: the
/// first media type that the crate's table holds for the extension `ext`,
/// reduced to its top-level type and subtype, and nothing for an extension
/// that the table does not hold. The lookup goes by the text of the
/// extension alone.
#[verifier::external_body]
fn guess_ext(ext: &str) -> (mime: Option<Mime>)
    ensures
        match mime {
            Some(m) => guessed_mime(ext@) == Some((m.top@, m.sub@)),
            None => guessed_mime(ext@) is None,
        },
{
    match mime_guess::from_ext(ext).first() {
        Some(m) => Some(
            Mime { top: m.type_().as_str().to_owned(), sub: m.subtype().as_str().to_owned() },
        ),
        None => None,
    }
}

/// The last position of `c` in `text`, if it occurs.
fn last_index(text: &str, c: char) -> (at: Option<usize>)
    ensures
        match at {
            Some(i) => last_of(text@, c) == i && i < text@.len(),
            None => last_of(text@, c) == -1,
        },
{
    let n = text.unicode_len();
    let mut at: Option<usize> = None;
    let mut i: usize = 0;
    assert(text@.take(0).len() == 0);
    while i < n
        invariant
            i <= n,
            n == text@.len(),
            match at {
                Some(k) => last_of(text@.take(i as int), c) == k && k < i,
                None => last_of(text@.take(i as int), c) == -1,
            },
        decreases n - i,
    {
        proof {
            let upto = text@.take(i + 1);
            assert(upto.drop_last() =~= text@.take(i as int));
            assert(upto.last() == text@[i as int]);
        }
        if text.get_char(i) == c {
            at = Some(i);
        }
        i += 1;
    }
    assert(text@.take(n as int) =~= text@);
    at
}

/// The extension of a path: see [`extension`].
pub fn extension_of(path: &str) -> (ext: &str)
    ensures
        ext@ == extension(path@),
{
    let n = path.unicode_len();
    let start: usize = match last_index(path, '/') {
        Some(i) => i + 1,
        None => 0,
    };
    let name = path.substring_char(start, n);
    assert(name@ =~= path@.skip(start as int));
    let m = name.unicode_len();
    match last_index(name, '.') {
        Some(dot) => {
            if dot > 0 {
                let ext = name.substring_char(dot + 1, m);
                assert(ext@ =~= name@.skip(dot + 1));
                ext
            } else {
                let ext = "";
                proof {
                    reveal_strlit("");
                    assert(ext@ =~= Seq::<char>::empty());
                }
                ext
            }
        },
        None => {
            let ext = "";
            proof {
                reveal_strlit("");
                assert(ext@ =~= Seq::<char>::empty());
            }
            ext
        },
    }
}

impl Mime {
    /// Parses a media type such as `text/plain`.
    pub fn parse(text: &str) -> (mime: Option<Mime>)
        ensures
            match mime {
                Some(m) => parsed(text@) == Some(m@),
                None => parsed(text@) is None,
            },
    {
        parse_mime(text)
    }

    /// The media type of data of unknown kind.
    pub fn octet_stream() -> (mime: Mime)
        ensures
            mime@ == octet_stream(),
    {
        Mime { top: "application".to_owned(), sub: "octet-stream".to_owned() }
    }

    /// The media type to go by for an extension, given the first one that
    /// is known for it, if one is.
    pub fn known_or_octet_stream(known: Option<Mime>) -> (mime: Mime)
        ensures
            mime@ == match known {
                Some(m) => m@,
                None => octet_stream(),
            },
    {
        match known {
            Some(m) => m,
            None => Mime::octet_stream(),
        }
    }

    /// Guesses the media type of a file from the extension of its path.
    pub fn guess(path: &str) -> (mime: Mime)
        ensures
            mime@ == guessed(path@),
    {
        Mime::known_or_octet_stream(guess_ext(extension_of(path)))
    }

    /// The media type to go by: the declared one where there is one, else
    /// the guessed one.
    pub fn first_of(declared: Option<Mime>, guessed: Mime) -> (mime: Mime)
        ensures
            mime@ == match declared {
                Some(m) => m@,
                None => guessed@,
            },
    {
        match declared {
            Some(m) => m,
            None => guessed,
        }
    }

    /// Whether the top-level type is `text`.
    pub open spec fn is_text_spec(mime: MimeView) -> bool {
        mime.top == "text"@
    }

    /// Whether the top-level type is `text`.
    pub fn is_text(&self) -> (text: bool)
        ensures
            text == Mime::is_text_spec(self@),
    {
        self.top == "text".to_owned()
    }

    /// A copy of the media type.
    pub fn duplicate(&self) -> (copy: Mime)
        ensures
            copy@ == self@,
    {
        Mime { top: self.top.clone(), sub: self.sub.clone() }
    }
}

} // verus!
