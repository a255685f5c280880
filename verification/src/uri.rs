//! Source locators and the percent-decoding of their parts.

use vstd::prelude::*;
use vstd::utf8::{decode_utf8, encode_utf8, valid_utf8};

verus! {

/// Why a percent-encoded string could not be decoded.
#[derive(Debug, Copy, Clone, PartialEq, Eq, Structural)]
pub enum DecodeError {
    /// A `%` is followed by a byte that is no hex digit.
    InvalidHexDigit,
    /// A `%` is followed by fewer than two bytes.
    IncompleteHexByte,
    /// The decoded bytes are not UTF-8.
    NotUtf8,
}

impl DecodeError {
    /// The error in words.
    pub fn message(&self) -> (text: &'static str)
        ensures
            text@ == match self {
                DecodeError::InvalidHexDigit => "invalid hex digit"@,
                DecodeError::IncompleteHexByte => "incomplete hex byte"@,
                DecodeError::NotUtf8 => "percent-encoded string is not valid UTF-8"@,
            },
    {
        match self {
            DecodeError::InvalidHexDigit => "invalid hex digit",
            DecodeError::IncompleteHexByte => "incomplete hex byte",
            DecodeError::NotUtf8 => "percent-encoded string is not valid UTF-8",
        }
    }
}

/// The byte that two digits stand for. A digit is one of the sixteen bytes
/// from `'0'` on; its value is its distance from `'0'`.
pub open spec fn hex_value(first: u8, second: u8) -> Option<u8> {
    if 48 <= first < 64 && 48 <= second < 64 {
        Some(((first - 48) * 16 + (second - 48)) as u8)
    } else {
        None
    }
}

/// The bytes that `input` stands for once each `%` and the two digits after
/// it are replaced by the byte they name; the first fault, reading from the
/// left, if there is one.
pub open spec fn unescaped(input: Seq<u8>) -> Result<Seq<u8>, DecodeError>
    decreases input.len(),
{
    if input.len() == 0 {
        Ok(Seq::empty())
    } else if input[0] == 37 {
        if input.len() < 3 {
            Err(DecodeError::IncompleteHexByte)
        } else {
            match hex_value(input[1], input[2]) {
                None => Err(DecodeError::InvalidHexDigit),
                Some(byte) => prepend(seq![byte], unescaped(input.skip(3))),
            }
        }
    } else {
        prepend(seq![input[0]], unescaped(input.skip(1)))
    }
}

/// `rest` with `front` before it, where `rest` is no fault.
pub open spec fn prepend(front: Seq<u8>, rest: Result<Seq<u8>, DecodeError>) -> Result<
    Seq<u8>,
    DecodeError,
> {
    match rest {
        Ok(bytes) => Ok(front + bytes),
        Err(e) => Err(e),
    }
}

/// The text that a percent-encoded string stands for.
pub open spec fn percent_decoded(input: Seq<u8>) -> Result<Seq<char>, DecodeError> {
    match unescaped(input) {
        Err(e) => Err(e),
        Ok(bytes) => if valid_utf8(bytes) {
            Ok(decode_utf8(bytes))
        } else {
            Err(DecodeError::NotUtf8)
        },
    }
}

/// Decodes two hex digits into the byte they name.
pub fn hex_decode(first: u8, second: u8) -> (byte: Result<u8, DecodeError>)
    ensures
        byte == match hex_value(first, second) {
            Some(b) => Ok::<u8, DecodeError>(b),
            None => Err(DecodeError::InvalidHexDigit),
        },
{
    if first < 48 || second < 48 {
        return Err(DecodeError::InvalidHexDigit);
    }
    let first = first - 48;
    let second = second - 48;
    if first >= 16 || second >= 16 {
        return Err(DecodeError::InvalidHexDigit);
    }
    Ok(first * 16 + second)
}

/// `String::from_utf8` of std: the string that `bytes` encode, where they
/// are UTF-8, and nothing where they are not.
#[verifier::external_body]
fn string_from_utf8(bytes: Vec<u8>) -> (text: Option<String>)
    ensures
        text is Some <==> valid_utf8(bytes@),
        text matches Some(s) ==> s@ == decode_utf8(bytes@),
{
    String::from_utf8(bytes).ok()
}

/// The text that `bytes` encode in UTF-8, if they do.
pub fn text_of(bytes: Vec<u8>) -> (text: Option<String>)
    ensures
        text is Some <==> valid_utf8(bytes@),
        text matches Some(s) ==> s@ == decode_utf8(bytes@),
{
    string_from_utf8(bytes)
}

/// Replaces each `%` and the two digits after it by the byte they name, and
/// reads the result as UTF-8.
pub fn percent_decode(input: &str) -> (text: Result<String, DecodeError>)
    ensures
        match text {
            Ok(s) => percent_decoded(encode_utf8(input@)) == Ok::<Seq<char>, DecodeError>(s@),
            Err(e) => percent_decoded(encode_utf8(input@)) == Err::<Seq<char>, DecodeError>(e),
        },
{
    let bytes = input.as_bytes();
    let ghost all = bytes@;
    let mut out: Vec<u8> = Vec::new();
    let mut i: usize = 0;
    assert(all.skip(0) =~= all);
    assert(out@ + Seq::<u8>::empty() =~= out@);
    while i < bytes.len()
        invariant
            i <= bytes.len(),
            all == bytes@,
            all == encode_utf8(input@),
            unescaped(all) == prepend(out@, unescaped(all.skip(i as int))),
        decreases bytes.len() - i,
    {
        let ghost rest = all.skip(i as int);
        let c = bytes[i];
        assert(rest[0] == c);
        assert(rest.len() == bytes.len() - i);
        if c == 37 {
            if bytes.len() - i < 3 {
                return Err(DecodeError::IncompleteHexByte);
            }
            assert(rest[1] == bytes[i + 1] && rest[2] == bytes[i + 2]);
            match hex_decode(bytes[i + 1], bytes[i + 2]) {
                Err(e) => {
                    return Err(e);
                },
                Ok(byte) => {
                    proof {
                        assert(rest.skip(3) =~= all.skip(i + 3));
                        lemma_prepend_twice(out@, seq![byte], unescaped(rest.skip(3)));
                        assert(out@.push(byte) =~= out@ + seq![byte]);
                    }
                    out.push(byte);
                    i += 3;
                },
            }
        } else {
            proof {
                assert(rest.skip(1) =~= all.skip(i + 1));
                lemma_prepend_twice(out@, seq![c], unescaped(rest.skip(1)));
                assert(out@.push(c) =~= out@ + seq![c]);
            }
            out.push(c);
            i += 1;
        }
    }
    proof {
        assert(all.skip(i as int).len() == 0);
        assert(out@ + Seq::<u8>::empty() =~= out@);
    }
    match string_from_utf8(out) {
        Some(s) => Ok(s),
        None => Err(DecodeError::NotUtf8),
    }
}

/// Prepending in two steps is prepending the two fronts joined.
proof fn lemma_prepend_twice(a: Seq<u8>, b: Seq<u8>, rest: Result<Seq<u8>, DecodeError>)
    ensures
        prepend(a, prepend(b, rest)) == prepend(a + b, rest),
{
    if let Ok(bytes) = rest {
        assert(a + (b + bytes) =~= (a + b) + bytes);
    }
}

/// Who asks: a user, and perhaps a password.
#[derive(Debug, Clone, PartialEq, Eq)]
pub struct Authority {
    pub user: String,
    pub password: Option<String>,
}

/// Where the asset is served: a name, and perhaps a port.
#[derive(Debug, Clone, PartialEq, Eq)]
pub struct Host {
    pub name: String,
    pub port: Option<u32>,
}

/// A parsed source locator.
#[derive(Debug, Clone, PartialEq, Eq)]
pub struct Uri {
    pub scheme: Option<String>,
    pub auth: Option<Authority>,
    pub host: Option<Host>,
    pub path: String,
}

/// The mathematical content of an [`Authority`].
pub struct AuthorityView {
    pub user: Seq<char>,
    pub password: Option<Seq<char>>,
}

/// The mathematical content of a [`Host`].
pub struct HostView {
    pub name: Seq<char>,
    pub port: Option<u32>,
}

/// The mathematical content of a [`Uri`].
pub struct UriView {
    pub scheme: Option<Seq<char>>,
    pub auth: Option<AuthorityView>,
    pub host: Option<HostView>,
    pub path: Seq<char>,
}

/// The content of an optional string.
pub open spec fn text_view(text: Option<String>) -> Option<Seq<char>> {
    match text {
        Some(s) => Some(s@),
        None => None,
    }
}

impl View for Authority {
    type V = AuthorityView;

    open spec fn view(&self) -> AuthorityView {
        AuthorityView { user: self.user@, password: text_view(self.password) }
    }
}

impl View for Host {
    type V = HostView;

    open spec fn view(&self) -> HostView {
        HostView { name: self.name@, port: self.port }
    }
}

impl View for Uri {
    type V = UriView;

    open spec fn view(&self) -> UriView {
        UriView {
            scheme: text_view(self.scheme),
            auth: match self.auth {
                Some(a) => Some(a@),
                None => None,
            },
            host: match self.host {
                Some(h) => Some(h@),
                None => None,
            },
            path: self.path@,
        }
    }
}

/// A copy of an optional string.
fn text_copy(text: &Option<String>) -> (copy: Option<String>)
    ensures
        text_view(copy) == text_view(*text),
{
    match text {
        Some(s) => Some(s.clone()),
        None => None,
    }
}

impl Uri {
    /// A copy of the locator.
    pub fn duplicate(&self) -> (copy: Uri)
        ensures
            copy@ == self@,
    {
        Uri {
            scheme: text_copy(&self.scheme),
            auth: match &self.auth {
                Some(a) => Some(
                    Authority { user: a.user.clone(), password: text_copy(&a.password) },
                ),
                None => None,
            },
            host: match &self.host {
                Some(h) => Some(Host { name: h.name.clone(), port: h.port }),
                None => None,
            },
            path: self.path.clone(),
        }
    }

    /// The locator of a local file: a path and nothing else.
    pub fn local(path: &str) -> (uri: Uri)
        ensures
            uri@ == (UriView { scheme: None, auth: None, host: None, path: path@ }),
    {
        Uri { scheme: None, auth: None, host: None, path: path.to_owned() }
    }
}

} // verus!
