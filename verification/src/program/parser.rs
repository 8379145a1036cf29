//! Finding the screen document in a request.
//!
//! A program arrives as a bare `<screen>` element or inside the SDK
//! envelope, with or without an XML declaration in front. This module finds
//! the element; turning its text into a `Screen` is left to the caller's
//! XML reader.

use crate::text::find;
use crate::text::find_bytes;
use crate::text::has_prefix;
use crate::text::has_suffix;
use crate::text::lemma_ascii_boundary;
use crate::text::lemma_ascii_ends;
use crate::text::lemma_ascii_bytes;
use crate::text::lemma_encode_concat;
use crate::text::lemma_find_from;
use crate::text::lemma_find_is;
use crate::text::lemma_match_is_local;
use crate::text::lemma_rfind_from;
use crate::text::lemma_rfind_is;
use crate::text::matches_at;
use crate::text::rfind;
use crate::text::rfind_bytes;
use crate::text::starts_with;
use crate::text::substr;
use crate::text::text_between;
use vstd::prelude::*;
use vstd::string::*;
use vstd::utf8::*;

verus! {

/// Whether a character is white space: the characters with the Unicode
/// property `White_Space`.
pub open spec fn is_whitespace(c: char) -> bool {
    let u = c as u32;
    ||| 0x09 <= u <= 0x0d
    ||| u == 0x20
    ||| u == 0x85
    ||| u == 0xa0
    ||| u == 0x1680
    ||| 0x2000 <= u <= 0x200a
    ||| u == 0x2028
    ||| u == 0x2029
    ||| u == 0x202f
    ||| u == 0x205f
    ||| u == 0x3000
}

/// A text without the white space in front of it.
pub open spec fn trim_start(s: Seq<char>) -> Seq<char>
    decreases s.len(),
{
    if s.len() > 0 && is_whitespace(s[0]) {
        trim_start(s.drop_first())
    } else {
        s
    }
}

/// A text without the white space behind it.
pub open spec fn trim_end(s: Seq<char>) -> Seq<char>
    decreases s.len(),
{
    if s.len() > 0 && is_whitespace(s.last()) {
        trim_end(s.drop_last())
    } else {
        s
    }
}

/// A text without the white space around it.
pub open spec fn trimmed(s: Seq<char>) -> Seq<char> {
    trim_end(trim_start(s))
}

/// Whether a character is white space.
fn is_space(c: char) -> (r: bool)
    ensures
        r == is_whitespace(c),
{
    let u: u32 = c as u32;
    (0x09 <= u && u <= 0x0d) || u == 0x20 || u == 0x85 || u == 0xa0 || u == 0x1680 || (0x2000 <= u
        && u <= 0x200a) || u == 0x2028 || u == 0x2029 || u == 0x202f || u == 0x205f || u == 0x3000
}

/// The text without the white space around it.
fn trim(s: &str) -> (r: &str)
    ensures
        r@ == trimmed(s@),
{
    let n: usize = s.unicode_len();
    let mut a: usize = 0;
    assert(s@.subrange(0, n as int) =~= s@);
    while a < n
        invariant
            a <= n,
            n == s@.len(),
            trim_start(s@) == trim_start(s@.subrange(a as int, n as int)),
        ensures
            a <= n,
            trim_start(s@) == s@.subrange(a as int, n as int),
        decreases n - a,
    {
        assert(s@.subrange(a as int, n as int)[0] == s@[a as int]);
        if !is_space(s.get_char(a)) {
            break ;
        }
        assert(s@.subrange(a as int, n as int).drop_first() =~= s@.subrange(a + 1, n as int));
        a += 1;
    }
    let mut b: usize = n;
    while b > a
        invariant
            a <= b <= n,
            n == s@.len(),
            trimmed(s@) == trim_end(s@.subrange(a as int, b as int)),
        ensures
            a <= b <= n,
            trimmed(s@) == s@.subrange(a as int, b as int),
        decreases b - a,
    {
        assert(s@.subrange(a as int, b as int).last() == s@[b - 1]);
        if !is_space(s.get_char(b - 1)) {
            break ;
        }
        assert(s@.subrange(a as int, b as int).drop_last() =~= s@.subrange(a as int, b - 1));
        b -= 1;
    }
    s.substring_char(a, b)
}

/// How a screen document was framed.
#[derive(Debug, Clone, Copy, PartialEq, Eq, Structural)]
pub enum Framing {
    /// A bare `<screen>` element.
    Bare,
    /// A `<screen>` element inside the SDK envelope.
    SdkWrapped,
}

/// Why no screen document was found.
#[derive(Debug, Clone, Copy, PartialEq, Eq, Structural)]
pub enum ParseErrorKind {
    /// The XML declaration has no end.
    MalformedDeclaration,
    /// The text begins with neither `<screen` nor `<sdk`.
    UnknownFormat,
    /// The SDK envelope holds no `<screen`.
    NoScreenElement,
    /// The SDK envelope holds no `</screen>` behind the start of the element.
    NoClosingTag,
    /// The screen element was found, but its text is not a screen.
    InvalidScreen,
}

/// Why a request did not yield a screen.
#[derive(Debug, Clone)]
pub struct ParseError {
    pub kind: ParseErrorKind,
    /// How the document was framed, where one was found.
    pub framing: Option<Framing>,
    /// The start of the text that was not understood, for the kind
    /// `UnknownFormat`; empty otherwise.
    pub snippet: String,
}

/// The message of an error.
pub open spec fn error_message(kind: ParseErrorKind, framing: Option<Framing>, snippet: Seq<char>) -> Seq<char> {
    match kind {
        ParseErrorKind::MalformedDeclaration => "Malformed XML declaration"@,
        ParseErrorKind::UnknownFormat => "Unknown XML format, expected <screen> or <sdk>, got: "@
            + snippet + "..."@,
        ParseErrorKind::NoScreenElement => "No <screen> element found inside SDK XML"@,
        ParseErrorKind::NoClosingTag => "No closing </screen> tag found"@,
        ParseErrorKind::InvalidScreen => if framing == Some(Framing::SdkWrapped) {
            "Failed to parse <screen> from SDK XML"@
        } else {
            "Failed to parse <screen> XML"@
        },
    }
}

impl ParseError {
    /// The message of the error.
    pub open spec fn text(&self) -> Seq<char> {
        error_message(self.kind, self.framing, self.snippet@)
    }

    /// The error for a screen element whose text is not a screen.
    pub fn invalid_screen(framing: Framing) -> (e: ParseError)
        ensures
            e.kind == ParseErrorKind::InvalidScreen,
            e.framing == Some(framing),
            e.snippet@ == Seq::<char>::empty(),
    {
        ParseError {
            kind: ParseErrorKind::InvalidScreen,
            framing: Some(framing),
            snippet: String::new(),
        }
    }

    /// The message of the error.
    pub fn message(&self) -> (r: String)
        ensures
            r@ == self.text(),
    {
        match self.kind {
            ParseErrorKind::MalformedDeclaration => "Malformed XML declaration".to_owned(),
            ParseErrorKind::UnknownFormat => {
                let mut m = "Unknown XML format, expected <screen> or <sdk>, got: ".to_owned();
                m.append(self.snippet.as_str());
                m.append("...");
                m
            },
            ParseErrorKind::NoScreenElement => "No <screen> element found inside SDK XML".to_owned(),
            ParseErrorKind::NoClosingTag => "No closing </screen> tag found".to_owned(),
            ParseErrorKind::InvalidScreen => {
                match self.framing {
                    Some(Framing::SdkWrapped) => "Failed to parse <screen> from SDK XML".to_owned(),
                    _ => "Failed to parse <screen> XML".to_owned(),
                }
            },
        }
    }
}

/// The screen document of a request: the text of the `<screen>` element and
/// how it was framed.
#[derive(Debug, Clone, Copy)]
pub struct ScreenDocument<'a> {
    pub text: &'a str,
    pub framing: Framing,
}

/// The length of the closing tag `</screen>`.
pub open spec fn closing_len() -> int {
    "</screen>".spec_bytes().len() as int
}

/// The span of the screen element inside an SDK envelope: from the first
/// `<screen` to the end of the last `</screen>`.
pub open spec fn wrapped_span(t: Seq<u8>) -> Result<(int, int), ParseErrorKind> {
    match find(t, "<screen".spec_bytes()) {
        None => Err(ParseErrorKind::NoScreenElement),
        Some(a) => match rfind(t, "</screen>".spec_bytes()) {
            None => Err(ParseErrorKind::NoClosingTag),
            Some(b) => if a <= b + closing_len() {
                Ok((a, b + closing_len()))
            } else {
                Err(ParseErrorKind::NoClosingTag)
            },
        },
    }
}

/// The span of the screen element in a text without declaration and
/// surrounding white space, and its framing.
pub open spec fn framed_span(t: Seq<u8>) -> Result<(int, int, Framing), ParseErrorKind> {
    if has_prefix(t, "<sdk".spec_bytes()) {
        match wrapped_span(t) {
            Ok((a, b)) => Ok((a, b, Framing::SdkWrapped)),
            Err(e) => Err(e),
        }
    } else if has_prefix(t, "<screen".spec_bytes()) {
        Ok((0, t.len() as int, Framing::Bare))
    } else {
        Err(ParseErrorKind::UnknownFormat)
    }
}

/// The screen element of a text without declaration and surrounding white
/// space.
pub open spec fn framed_document(t: Seq<char>) -> Result<(Seq<char>, Framing), ParseErrorKind> {
    match framed_span(encode_utf8(t)) {
        Ok((a, b, framing)) => Ok((text_between(encode_utf8(t), a, b), framing)),
        Err(e) => Err(e),
    }
}

/// The text of a request without the white space around it and without an
/// XML declaration in front, which ends at the first `?>`, and the white
/// space behind that. A declaration without end leaves no text.
pub open spec fn body_of(xml: Seq<char>) -> Option<Seq<char>> {
    let t = trimmed(xml);
    let bytes = encode_utf8(t);
    if has_prefix(bytes, "<?xml".spec_bytes()) {
        match find(bytes, "?>".spec_bytes()) {
            None => None,
            Some(p) => Some(trimmed(text_between(bytes, p + 2, bytes.len() as int))),
        }
    } else {
        Some(t)
    }
}

/// The screen element of a request: what remains of it without declaration
/// and white space is a bare `<screen>` element or an SDK envelope.
pub open spec fn document(xml: Seq<char>) -> Result<(Seq<char>, Framing), ParseErrorKind> {
    match body_of(xml) {
        None => Err(ParseErrorKind::MalformedDeclaration),
        Some(body) => framed_document(body),
    }
}

/// The framing that an error of a kind names: the SDK envelope for what is
/// missing inside one.
pub open spec fn failure_framing(kind: ParseErrorKind) -> Option<Framing> {
    if kind == ParseErrorKind::NoScreenElement || kind == ParseErrorKind::NoClosingTag {
        Some(Framing::SdkWrapped)
    } else {
        None
    }
}

/// The start of a text that an error of a kind quotes.
pub open spec fn failure_snippet(kind: ParseErrorKind, body: Option<Seq<char>>) -> Seq<char> {
    match body {
        Some(text) => if kind == ParseErrorKind::UnknownFormat {
            snippet_of(text)
        } else {
            Seq::empty()
        },
        None => Seq::empty(),
    }
}

/// The most bytes of a text that an error quotes.
pub const SNIPPET_BYTES: usize = 50;

/// Where the quoted start of a text ends: at the last character boundary
/// within the first 50 bytes.
pub open spec fn snippet_end(bytes: Seq<u8>, at: int) -> int
    decreases at,
{
    if at <= 0 || (at <= bytes.len() && is_char_boundary(bytes, at)) {
        at
    } else {
        snippet_end(bytes, at - 1)
    }
}

/// The start of a text that an error quotes.
pub open spec fn snippet_of(t: Seq<char>) -> Seq<char> {
    let bytes = encode_utf8(t);
    let limit = if bytes.len() < 50 {
        bytes.len() as int
    } else {
        50
    };
    text_between(bytes, 0, snippet_end(bytes, limit))
}

/// The start of a text, for an error to quote.
fn snippet(t: &str) -> (r: String)
    ensures
        r@ == snippet_of(t@),
{
    let n: usize = t.as_bytes().len();
    let mut at: usize = if n < SNIPPET_BYTES {
        n
    } else {
        SNIPPET_BYTES
    };
    let ghost limit = at as int;
    proof {
        encode_utf8_valid_utf8(t@);
        is_char_boundary_start_end_of_seq(t.spec_bytes());
    }
    while at > 0 && !t.is_char_boundary(at)
        invariant
            at <= n,
            n == t.spec_bytes().len(),
            valid_utf8(t.spec_bytes()),
            snippet_end(t.spec_bytes(), limit) == snippet_end(t.spec_bytes(), at as int),
        decreases at,
    {
        at -= 1;
    }
    substr(t, 0, at).to_owned()
}

/// Extracts the `<screen>` element from an SDK envelope:
/// `<sdk guid="..."><in method="AddProgram"><screen>...</screen></in></sdk>`.
fn parse_sdk_wrapped<'a>(xml: &'a str) -> (r: Result<&'a str, ParseErrorKind>)
    ensures
        match wrapped_span(xml.spec_bytes()) {
            Ok((a, b)) => r matches Ok(s) && s@ == text_between(xml.spec_bytes(), a, b),
            Err(e) => r == Err::<&str, ParseErrorKind>(e),
        },
{
    let bytes = xml.as_bytes();
    let n: usize = bytes.len();
    let open = "<screen".as_bytes();
    let close = "</screen>".as_bytes();
    let start = match find_bytes(bytes, open) {
        Some(a) => a,
        None => { return Err(ParseErrorKind::NoScreenElement); },
    };
    let last = match rfind_bytes(bytes, close) {
        Some(b) => b,
        None => { return Err(ParseErrorKind::NoClosingTag); },
    };
    proof {
        reveal_strlit("<screen");
        reveal_strlit("</screen>");
        lemma_ascii_bytes("<screen");
        lemma_ascii_bytes("</screen>");
        lemma_find_from(bytes@, open@, 0);
        lemma_rfind_from(bytes@, close@, bytes@.len() - close@.len());
        assert(matches_at(bytes@, open@, start as int));
        assert(matches_at(bytes@, close@, last as int));
    }
    let end: usize = last + close.len();
    if start > end {
        return Err(ParseErrorKind::NoClosingTag);
    }
    proof {
        encode_utf8_valid_utf8(xml@);
        assert(bytes@[start as int] == bytes@.subrange(start as int, start + open@.len())[0]);
        lemma_ascii_boundary(bytes@, start as int);
        assert(bytes@[end - 1] == bytes@.subrange(last as int, last + close@.len())[8]);
        lemma_ascii_boundary(bytes@, end - 1);
    }
    Ok(substr(xml, start, end))
}

/// Finds the screen element in a text without declaration and surrounding
/// white space.
fn parse_framed<'a>(t: &'a str) -> (r: Result<ScreenDocument<'a>, ParseError>)
    ensures
        match framed_document(t@) {
            Ok((text, framing)) => r matches Ok(doc) && doc.text@ == text && doc.framing
                == framing,
            Err(kind) => r matches Err(e) && e.kind == kind && e.framing == failure_framing(kind)
                && e.snippet@ == failure_snippet(kind, Some(t@)),
        },
{
    let bytes = t.as_bytes();
    if starts_with(bytes, "<sdk".as_bytes()) {
        match parse_sdk_wrapped(t) {
            Ok(text) => Ok(ScreenDocument { text, framing: Framing::SdkWrapped }),
            Err(kind) => Err(
                ParseError { kind, framing: Some(Framing::SdkWrapped), snippet: String::new() },
            ),
        }
    } else if starts_with(bytes, "<screen".as_bytes()) {
        proof {
            assert(bytes@.subrange(0, bytes@.len() as int) =~= bytes@);
            encode_utf8_decode_utf8(t@);
        }
        Ok(ScreenDocument { text: t, framing: Framing::Bare })
    } else {
        Err(ParseError { kind: ParseErrorKind::UnknownFormat, framing: None, snippet: snippet(t) })
    }
}

/// Finds the screen element of a request, whichever way it is framed.
pub fn parse_program_xml<'a>(xml: &'a str) -> (r: Result<ScreenDocument<'a>, ParseError>)
    ensures
        match document(xml@) {
            Ok((text, framing)) => r matches Ok(doc) && doc.text@ == text && doc.framing
                == framing,
            Err(kind) => r matches Err(e) && e.kind == kind && e.framing == failure_framing(kind)
                && e.snippet@ == failure_snippet(kind, body_of(xml@)),
        },
{
    let t = trim(xml);
    let bytes = t.as_bytes();
    if !starts_with(bytes, "<?xml".as_bytes()) {
        return parse_framed(t);
    }
    let mark = "?>".as_bytes();
    match find_bytes(bytes, mark) {
        Some(p) => {
            proof {
                reveal_strlit("?>");
                lemma_ascii_bytes("?>");
                lemma_find_from(bytes@, mark@, 0);
                assert(matches_at(bytes@, mark@, p as int));
                encode_utf8_valid_utf8(t@);
                assert(bytes@[p + 1] == bytes@.subrange(p as int, p + 2)[1]);
                lemma_ascii_boundary(bytes@, p + 1);
                is_char_boundary_start_end_of_seq(bytes@);
            }
            let n: usize = bytes.len();
            parse_framed(trim(substr(t, p + 2, n)))
        },
        None => Err(
            ParseError {
                kind: ParseErrorKind::MalformedDeclaration,
                framing: None,
                snippet: String::new(),
            },
        ),
    }
}

/// A bare screen element is its own document.
pub proof fn lemma_bare_document(screen: Seq<char>)
    requires
        has_prefix(encode_utf8(screen), "<screen".spec_bytes()),
    ensures
        framed_document(screen) == Ok::<(Seq<char>, Framing), ParseErrorKind>(
            (screen, Framing::Bare),
        ),
{
    let es = encode_utf8(screen);
    reveal_strlit("<screen");
    reveal_strlit("<sdk");
    lemma_ascii_bytes("<screen");
    lemma_ascii_bytes("<sdk");
    let open = "<screen".spec_bytes();
    let sdk = "<sdk".spec_bytes();
    assert(es[2] == es.subrange(0, 7)[2]);
    if has_prefix(es, sdk) {
        assert(es[2] == es.subrange(0, 4)[2]);
    }
    assert(es.subrange(0, es.len() as int) =~= es);
    encode_utf8_decode_utf8(screen);
}

/// Inside an envelope that holds no screen tags of its own, the screen
/// element is the document.
pub proof fn lemma_wrapped_document(screen: Seq<char>, head: Seq<char>, tail: Seq<char>)
    requires
        has_prefix(encode_utf8(screen), "<screen".spec_bytes()),
        has_suffix(encode_utf8(screen), "</screen>".spec_bytes()),
        has_prefix(encode_utf8(head), "<sdk".spec_bytes()),
        forall|j: int|
            0 <= j < encode_utf8(head).len() ==> !matches_at(
                encode_utf8(head) + "<screen".spec_bytes(),
                "<screen".spec_bytes(),
                j,
            ),
        forall|j: int|
            0 < j ==> !matches_at(
                "</screen>".spec_bytes() + encode_utf8(tail),
                "</screen>".spec_bytes(),
                j,
            ),
    ensures
        framed_document(head + screen + tail) == Ok::<(Seq<char>, Framing), ParseErrorKind>(
            (screen, Framing::SdkWrapped),
        ),
{
    let eh = encode_utf8(head);
    let es = encode_utf8(screen);
    let et = encode_utf8(tail);
    let w = head + screen + tail;
    let ew = encode_utf8(w);
    let open = "<screen".spec_bytes();
    let close = "</screen>".spec_bytes();
    let sdk = "<sdk".spec_bytes();
    lemma_encode_concat(head + screen, tail);
    lemma_encode_concat(head, screen);
    assert(ew == eh + es + et);
    reveal_strlit("<screen");
    reveal_strlit("</screen>");
    reveal_strlit("<sdk");
    lemma_ascii_bytes("<screen");
    lemma_ascii_bytes("</screen>");
    lemma_ascii_bytes("<sdk");
    assert(ew.subrange(0, 4) =~= eh.subrange(0, 4));
    let a = eh.len() as int;
    let b = eh.len() + es.len() - 9;
    assert(ew.subrange(a, a + 7) =~= es.subrange(0, 7));
    assert(ew.subrange(b, b + 9) =~= es.subrange(es.len() - 9, es.len() as int));
    assert forall|j: int| 0 <= j < a implies !matches_at(ew, open, j) by {
        if j + 7 <= ew.len() {
            assert(ew.subrange(j, j + 7) =~= (eh + open).subrange(j, j + 7)) by {
                assert forall|k: int| 0 <= k < 7 implies #[trigger] ew.subrange(j, j + 7)[k]
                    == (eh + open).subrange(j, j + 7)[k] by {
                    if j + k >= a {
                        assert(ew[j + k] == es[j + k - a]);
                        assert(es[j + k - a] == es.subrange(0, 7)[j + k - a]);
                    }
                }
            }
            lemma_match_is_local(ew, j, eh + open, j, open);
        }
    }
    lemma_find_is(ew, open, a);
    assert forall|j: int| b < j implies !matches_at(ew, close, j) by {
        if j + 9 <= ew.len() {
            let shifted = j - b;
            assert(ew.subrange(j, j + 9) =~= (close + et).subrange(shifted, shifted + 9)) by {
                assert forall|k: int| 0 <= k < 9 implies #[trigger] ew.subrange(j, j + 9)[k]
                    == (close + et).subrange(shifted, shifted + 9)[k] by {
                    if j + k < a + es.len() {
                        assert(ew[j + k] == es[j + k - a]);
                        assert(es[j + k - a] == es.subrange(es.len() - 9, es.len() as int)[shifted
                            + k]);
                    }
                }
            }
            lemma_match_is_local(ew, j, close + et, shifted, close);
        }
    }
    lemma_rfind_is(ew, close, b);
    assert(ew.subrange(a, b + 9) =~= es);
    encode_utf8_decode_utf8(screen);
}

/// Behind an XML declaration, the document is that of the text that
/// follows.
pub proof fn lemma_declared_document(declaration: Seq<char>, rest: Seq<char>)
    requires
        has_prefix(encode_utf8(declaration), "<?xml".spec_bytes()),
        find(encode_utf8(declaration), "?>".spec_bytes()) == Some(
            encode_utf8(declaration).len() - 2,
        ),
        trimmed(declaration + rest) == declaration + rest,
        trimmed(rest) == rest,
    ensures
        document(declaration + rest) == framed_document(rest),
{
    let ed = encode_utf8(declaration);
    let er = encode_utf8(rest);
    let bytes = encode_utf8(declaration + rest);
    let mark = "?>".spec_bytes();
    lemma_encode_concat(declaration, rest);
    reveal_strlit("<?xml");
    reveal_strlit("<screen");
    reveal_strlit("<sdk");
    reveal_strlit("?>");
    lemma_ascii_bytes("<?xml");
    lemma_ascii_bytes("<screen");
    lemma_ascii_bytes("<sdk");
    lemma_ascii_bytes("?>");
    assert(bytes.subrange(0, 5) =~= ed.subrange(0, 5));
    let p = ed.len() - 2;
    lemma_find_from(ed, mark, 0);
    assert(bytes.subrange(p, p + 2) =~= ed.subrange(p, p + 2));
    assert forall|j: int| 0 <= j < p implies !matches_at(bytes, mark, j) by {
        assert(bytes.subrange(j, j + 2) =~= ed.subrange(j, j + 2));
        lemma_match_is_local(bytes, j, ed, j, mark);
    }
    lemma_find_is(bytes, mark, p);
    assert(bytes.subrange(p + 2, bytes.len() as int) =~= er);
    encode_utf8_decode_utf8(rest);
}

/// A text that begins and ends with characters that are no white space has
/// no white space around it.
pub proof fn lemma_trimmed_already(s: Seq<char>)
    requires
        s.len() > 0,
        !is_whitespace(s[0]),
        !is_whitespace(s.last()),
    ensures
        trimmed(s) == s,
{
}

/// Where a text holds no `<screen`, none begins in it when a `<screen`
/// follows.
proof fn lemma_no_opening_before(eh: Seq<u8>)
    requires
        find(eh, "<screen".spec_bytes()) is None,
    ensures
        forall|j: int|
            0 <= j < eh.len() ==> !matches_at(
                eh + "<screen".spec_bytes(),
                "<screen".spec_bytes(),
                j,
            ),
{
    let open = "<screen".spec_bytes();
    reveal_strlit("<screen");
    lemma_ascii_bytes("<screen");
    lemma_find_from(eh, open, 0);
    assert forall|j: int| 0 <= j < eh.len() implies !matches_at(eh + open, open, j) by {
        if matches_at(eh + open, open, j) {
            let found = (eh + open).subrange(j, j + 7);
            if j + 7 <= eh.len() {
                assert(found =~= eh.subrange(j, j + 7));
                assert(matches_at(eh, open, j));
            } else {
                let k = eh.len() - j;
                assert(found[k] == (eh + open)[j + k]);
                assert((eh + open)[j + k] == open[0]);
                assert(found[k] == open[k]);
            }
        }
    }
}

/// Where a text holds no `</screen>`, none begins behind the start of a
/// `</screen>` in front of it.
proof fn lemma_no_closing_behind(et: Seq<u8>)
    requires
        find(et, "</screen>".spec_bytes()) is None,
    ensures
        forall|j: int|
            0 < j ==> !matches_at(
                "</screen>".spec_bytes() + et,
                "</screen>".spec_bytes(),
                j,
            ),
{
    let close = "</screen>".spec_bytes();
    reveal_strlit("</screen>");
    lemma_ascii_bytes("</screen>");
    lemma_find_from(et, close, 0);
    assert forall|j: int| 0 < j implies !matches_at(close + et, close, j) by {
        if matches_at(close + et, close, j) {
            let found = (close + et).subrange(j, j + 9);
            if j >= 9 {
                assert(found =~= et.subrange(j - 9, j));
                assert(matches_at(et, close, j - 9));
            } else {
                assert(found[0] == (close + et)[j]);
                assert((close + et)[j] == close[j]);
                assert(found[0] == close[0]);
            }
        }
    }
}

/// A text whose bytes begin with one of the opening patterns begins with
/// `<`, which is no white space.
proof fn lemma_opens_with_bracket(s: Seq<char>, pattern: &str)
    requires
        has_prefix(encode_utf8(s), pattern.spec_bytes()),
        pattern@ == "<sdk"@ || pattern@ == "<screen"@ || pattern@ == "<?xml"@,
    ensures
        s.len() > 0,
        !is_whitespace(s[0]),
{
    reveal_strlit("<sdk");
    reveal_strlit("<screen");
    reveal_strlit("<?xml");
    lemma_ascii_bytes(pattern);
    let bytes = encode_utf8(s);
    assert(bytes[0] == bytes.subrange(0, pattern.spec_bytes().len() as int)[0]);
    lemma_ascii_ends(s);
}

/// A text whose bytes end with one of the closing patterns ends with `>`,
/// which is no white space.
proof fn lemma_closes_with_bracket(s: Seq<char>, pattern: &str)
    requires
        has_suffix(encode_utf8(s), pattern.spec_bytes()),
        pattern@ == "</screen>"@ || pattern@ == "?>"@,
    ensures
        s.len() > 0,
        !is_whitespace(s.last()),
{
    reveal_strlit("</screen>");
    reveal_strlit("?>");
    lemma_ascii_bytes(pattern);
    let bytes = encode_utf8(s);
    let n = pattern.spec_bytes().len() as int;
    assert(bytes.last() == bytes.subrange(bytes.len() - n, bytes.len() as int)[n - 1]);
    lemma_ascii_ends(s);
}

/// The texts of the envelope law have no white space around them.
proof fn lemma_framings_are_trimmed(
    screen: Seq<char>,
    head: Seq<char>,
    tail: Seq<char>,
    declaration: Seq<char>,
)
    requires
        has_prefix(encode_utf8(screen), "<screen".spec_bytes()),
        has_suffix(encode_utf8(screen), "</screen>".spec_bytes()),
        has_prefix(encode_utf8(head), "<sdk".spec_bytes()),
        tail.len() == 0 || !is_whitespace(tail.last()),
        has_prefix(encode_utf8(declaration), "<?xml".spec_bytes()),
    ensures
        trimmed(screen) == screen,
        trimmed(head + screen + tail) == head + screen + tail,
        trimmed(declaration + screen) == declaration + screen,
        trimmed(declaration + (head + screen + tail)) == declaration + (head + screen + tail),
{
    lemma_opens_with_bracket(screen, "<screen");
    lemma_closes_with_bracket(screen, "</screen>");
    lemma_opens_with_bracket(head, "<sdk");
    lemma_opens_with_bracket(declaration, "<?xml");
    let w = head + screen + tail;
    assert(w[0] == head[0]);
    assert(w.last() == if tail.len() == 0 {
        screen.last()
    } else {
        tail.last()
    });
    assert((declaration + screen)[0] == declaration[0]);
    assert((declaration + screen).last() == screen.last());
    assert((declaration + w)[0] == declaration[0]);
    assert((declaration + w).last() == w.last());
    lemma_trimmed_already(screen);
    lemma_trimmed_already(w);
    lemma_trimmed_already(declaration + screen);
    lemma_trimmed_already(declaration + w);
}

/// Neither a bare screen element nor an SDK envelope begins like an XML
/// declaration.
proof fn lemma_not_declared(s: Seq<char>, pattern: &str)
    requires
        has_prefix(encode_utf8(s), pattern.spec_bytes()),
        pattern@ == "<sdk"@ || pattern@ == "<screen"@,
    ensures
        !has_prefix(encode_utf8(s), "<?xml".spec_bytes()),
{
    reveal_strlit("<sdk");
    reveal_strlit("<screen");
    reveal_strlit("<?xml");
    lemma_ascii_bytes(pattern);
    lemma_ascii_bytes("<?xml");
    let bytes = encode_utf8(s);
    assert(bytes[1] == bytes.subrange(0, pattern.spec_bytes().len() as int)[1]);
    if has_prefix(bytes, "<?xml".spec_bytes()) {
        assert(bytes[1] == bytes.subrange(0, 5)[1]);
    }
}

/// Envelope tolerance: a screen element is found as the same document
/// whether it stands alone, inside an SDK envelope, or behind an XML
/// declaration in front of either.
///
/// The screen element begins with `<screen` and ends with `</screen>`. The
/// envelope begins with `<sdk`; what it puts in front of the element holds
/// no `<screen`, what it puts behind holds no `</screen>` and does not end
/// in white space. The declaration begins with `<?xml` and ends with its
/// first `?>`.
pub proof fn lemma_framings_agree(
    screen: Seq<char>,
    head: Seq<char>,
    tail: Seq<char>,
    declaration: Seq<char>,
)
    requires
        has_prefix(encode_utf8(screen), "<screen".spec_bytes()),
        has_suffix(encode_utf8(screen), "</screen>".spec_bytes()),
        has_prefix(encode_utf8(head), "<sdk".spec_bytes()),
        find(encode_utf8(head), "<screen".spec_bytes()) is None,
        find(encode_utf8(tail), "</screen>".spec_bytes()) is None,
        tail.len() == 0 || !is_whitespace(tail.last()),
        has_prefix(encode_utf8(declaration), "<?xml".spec_bytes()),
        find(encode_utf8(declaration), "?>".spec_bytes()) == Some(
            encode_utf8(declaration).len() - 2,
        ),
    ensures
        document(screen) == Ok::<(Seq<char>, Framing), ParseErrorKind>((screen, Framing::Bare)),
        document(declaration + screen) == document(screen),
        document(head + screen + tail) == Ok::<(Seq<char>, Framing), ParseErrorKind>(
            (screen, Framing::SdkWrapped),
        ),
        document(declaration + (head + screen + tail)) == document(head + screen + tail),
{
    let w = head + screen + tail;
    lemma_no_opening_before(encode_utf8(head));
    lemma_no_closing_behind(encode_utf8(tail));
    lemma_framings_are_trimmed(screen, head, tail, declaration);
    lemma_bare_document(screen);
    lemma_wrapped_document(screen, head, tail);
    lemma_declared_document(declaration, screen);
    lemma_declared_document(declaration, w);
    lemma_not_declared(screen, "<screen");
    assert(has_prefix(encode_utf8(w), "<sdk".spec_bytes())) by {
        lemma_encode_concat(head + screen, tail);
        lemma_encode_concat(head, screen);
        reveal_strlit("<sdk");
        lemma_ascii_bytes("<sdk");
        assert(encode_utf8(w).subrange(0, 4) =~= encode_utf8(head).subrange(0, 4));
    }
    lemma_not_declared(w, "<sdk");
}

/// What an SDK envelope puts in front of a screen element.
pub open spec fn envelope_head(guid: Seq<char>, method: Seq<char>) -> Seq<char> {
    "<sdk guid=\""@ + guid + "\"><in method=\""@ + method + "\">"@
}

/// What an SDK envelope puts behind a screen element.
pub open spec fn envelope_tail() -> Seq<char> {
    "</in></sdk>"@
}

/// An XML declaration with the given attributes.
pub open spec fn declaration_of(attributes: Seq<char>) -> Seq<char> {
    "<?xml"@ + attributes + "?>"@
}

/// Whether a text is free of a byte.
pub open spec fn free_of(text: Seq<char>, byte: u8) -> bool {
    forall|i: int| 0 <= i < encode_utf8(text).len() ==> #[trigger] encode_utf8(text)[i] != byte
}

/// The bytes of the fixed parts of envelope and declaration.
proof fn lemma_fixed_parts()
    ensures
        "<sdk guid=\"".spec_bytes() == seq![
            0x3cu8,
            0x73u8,
            0x64u8,
            0x6bu8,
            0x20u8,
            0x67u8,
            0x75u8,
            0x69u8,
            0x64u8,
            0x3du8,
            0x22u8,
        ],
        "\"><in method=\"".spec_bytes() == seq![
            0x22u8,
            0x3eu8,
            0x3cu8,
            0x69u8,
            0x6eu8,
            0x20u8,
            0x6du8,
            0x65u8,
            0x74u8,
            0x68u8,
            0x6fu8,
            0x64u8,
            0x3du8,
            0x22u8,
        ],
        "\">".spec_bytes() == seq![0x22u8, 0x3eu8],
        "</in></sdk>".spec_bytes() == seq![
            0x3cu8,
            0x2fu8,
            0x69u8,
            0x6eu8,
            0x3eu8,
            0x3cu8,
            0x2fu8,
            0x73u8,
            0x64u8,
            0x6bu8,
            0x3eu8,
        ],
        "<?xml".spec_bytes() == seq![0x3cu8, 0x3fu8, 0x78u8, 0x6du8, 0x6cu8],
        "?>".spec_bytes() == seq![0x3fu8, 0x3eu8],
        "<screen".spec_bytes() == seq![0x3cu8, 0x73u8, 0x63u8, 0x72u8, 0x65u8, 0x65u8, 0x6eu8],
        "</screen>".spec_bytes() == seq![
            0x3cu8,
            0x2fu8,
            0x73u8,
            0x63u8,
            0x72u8,
            0x65u8,
            0x65u8,
            0x6eu8,
            0x3eu8,
        ],
        "<sdk".spec_bytes() == seq![0x3cu8, 0x73u8, 0x64u8, 0x6bu8],
{
    reveal_strlit("<sdk guid=\"");
    reveal_strlit("\"><in method=\"");
    reveal_strlit("\">");
    reveal_strlit("</in></sdk>");
    reveal_strlit("<?xml");
    reveal_strlit("?>");
    reveal_strlit("<screen");
    reveal_strlit("</screen>");
    reveal_strlit("<sdk");
    lemma_ascii_bytes("<sdk guid=\"");
    lemma_ascii_bytes("\"><in method=\"");
    lemma_ascii_bytes("\">");
    lemma_ascii_bytes("</in></sdk>");
    lemma_ascii_bytes("<?xml");
    lemma_ascii_bytes("?>");
    lemma_ascii_bytes("<screen");
    lemma_ascii_bytes("</screen>");
    lemma_ascii_bytes("<sdk");
    assert("<sdk guid=\"".spec_bytes() =~= seq![
        0x3cu8,
        0x73u8,
        0x64u8,
        0x6bu8,
        0x20u8,
        0x67u8,
        0x75u8,
        0x69u8,
        0x64u8,
        0x3du8,
        0x22u8,
    ]);
    assert("\"><in method=\"".spec_bytes() =~= seq![
        0x22u8,
        0x3eu8,
        0x3cu8,
        0x69u8,
        0x6eu8,
        0x20u8,
        0x6du8,
        0x65u8,
        0x74u8,
        0x68u8,
        0x6fu8,
        0x64u8,
        0x3du8,
        0x22u8,
    ]);
    assert("\">".spec_bytes() =~= seq![0x22u8, 0x3eu8]);
    assert("</in></sdk>".spec_bytes() =~= seq![
        0x3cu8,
        0x2fu8,
        0x69u8,
        0x6eu8,
        0x3eu8,
        0x3cu8,
        0x2fu8,
        0x73u8,
        0x64u8,
        0x6bu8,
        0x3eu8,
    ]);
    assert("<?xml".spec_bytes() =~= seq![0x3cu8, 0x3fu8, 0x78u8, 0x6du8, 0x6cu8]);
    assert("?>".spec_bytes() =~= seq![0x3fu8, 0x3eu8]);
    assert("<screen".spec_bytes() =~= seq![
        0x3cu8,
        0x73u8,
        0x63u8,
        0x72u8,
        0x65u8,
        0x65u8,
        0x6eu8,
    ]);
    assert("</screen>".spec_bytes() =~= seq![
        0x3cu8,
        0x2fu8,
        0x73u8,
        0x63u8,
        0x72u8,
        0x65u8,
        0x65u8,
        0x6eu8,
        0x3eu8,
    ]);
    assert("<sdk".spec_bytes() =~= seq![0x3cu8, 0x73u8, 0x64u8, 0x6bu8]);
}

/// The bytes of what an envelope puts in front of a screen element.
proof fn lemma_head_bytes(guid: Seq<char>, method: Seq<char>)
    ensures
        encode_utf8(envelope_head(guid, method)) == "<sdk guid=\"".spec_bytes() + encode_utf8(guid)
            + "\"><in method=\"".spec_bytes() + encode_utf8(method) + "\">".spec_bytes(),
{
    let a = "<sdk guid=\""@;
    let b = "\"><in method=\""@;
    let c = "\">"@;
    lemma_encode_concat(a + guid + b + method, c);
    lemma_encode_concat(a + guid + b, method);
    lemma_encode_concat(a + guid, b);
    lemma_encode_concat(a, guid);
}

/// The head of an envelope begins with `<sdk` and holds no `<screen`,
/// whatever session and method it names, as long as they hold no `<`.
proof fn lemma_head_is_plain(guid: Seq<char>, method: Seq<char>)
    requires
        free_of(guid, 0x3c),
        free_of(method, 0x3c),
    ensures
        has_prefix(encode_utf8(envelope_head(guid, method)), "<sdk".spec_bytes()),
        find(encode_utf8(envelope_head(guid, method)), "<screen".spec_bytes()) is None,
{
    lemma_fixed_parts();
    lemma_head_bytes(guid, method);
    let a = "<sdk guid=\"".spec_bytes();
    let g = encode_utf8(guid);
    let b = "\"><in method=\"".spec_bytes();
    let m = encode_utf8(method);
    let c = "\">".spec_bytes();
    let open = "<screen".spec_bytes();
    let eh = encode_utf8(envelope_head(guid, method));
    assert(eh == a + g + b + m + c);
    assert(eh.subrange(0, 4) =~= "<sdk".spec_bytes());
    let second = a.len() + g.len() + 2;
    assert forall|j: int| 0 <= j < eh.len() && eh[j] == 0x3c implies j == 0 || j == second by {
        if j < a.len() {
            assert(eh[j] == a[j]);
        } else if j < a.len() + g.len() {
            assert(eh[j] == g[j - a.len()]);
        } else if j < a.len() + g.len() + b.len() {
            assert(eh[j] == b[j - a.len() - g.len()]);
        } else if j < a.len() + g.len() + b.len() + m.len() {
            assert(eh[j] == m[j - a.len() - g.len() - b.len()]);
        } else {
            assert(eh[j] == c[j - a.len() - g.len() - b.len() - m.len()]);
        }
    }
    assert forall|j: int| 0 <= j implies !matches_at(eh, open, j) by {
        if matches_at(eh, open, j) {
            let found = eh.subrange(j, j + 7);
            assert(found[0] == eh[j] && found[1] == eh[j + 1] && found[2] == eh[j + 2]);
            if j == 0 {
                assert(eh[2] == a[2]);
            } else {
                assert(j == second);
                assert(eh[j + 1] == b[3]);
            }
        }
    }
    lemma_find_from(eh, open, 0);
}

/// The tail of an envelope holds no `</screen>` and ends with `>`.
proof fn lemma_tail_is_plain()
    ensures
        find(encode_utf8(envelope_tail()), "</screen>".spec_bytes()) is None,
        envelope_tail().len() > 0,
        !is_whitespace(envelope_tail().last()),
{
    lemma_fixed_parts();
    reveal_strlit("</in></sdk>");
    let et = encode_utf8(envelope_tail());
    let close = "</screen>".spec_bytes();
    assert forall|j: int| 0 <= j implies !matches_at(et, close, j) by {
        if matches_at(et, close, j) {
            let found = et.subrange(j, j + 9);
            assert(found[0] == et[j] && found[2] == et[j + 2]);
        }
    }
    lemma_find_from(et, close, 0);
}

/// A declaration begins with `<?xml` and ends with its first `?>`, whatever
/// its attributes, as long as they hold no `?`.
proof fn lemma_declaration_is_plain(attributes: Seq<char>)
    requires
        free_of(attributes, 0x3f),
    ensures
        has_prefix(encode_utf8(declaration_of(attributes)), "<?xml".spec_bytes()),
        find(encode_utf8(declaration_of(attributes)), "?>".spec_bytes()) == Some(
            encode_utf8(declaration_of(attributes)).len() - 2,
        ),
{
    lemma_fixed_parts();
    let a = "<?xml".spec_bytes();
    let t = encode_utf8(attributes);
    let c = "?>".spec_bytes();
    lemma_encode_concat("<?xml"@ + attributes, "?>"@);
    lemma_encode_concat("<?xml"@, attributes);
    let ed = encode_utf8(declaration_of(attributes));
    assert(ed == a + t + c);
    assert(ed.subrange(0, 5) =~= a);
    let end = ed.len() - 2;
    assert(ed.subrange(end, end + 2) =~= c);
    assert forall|j: int| 0 <= j < end implies !matches_at(ed, c, j) by {
        if matches_at(ed, c, j) {
            let found = ed.subrange(j, j + 2);
            assert(found[0] == ed[j] && found[1] == ed[j + 1]);
            if j < 5 {
                assert(ed[j] == a[j]);
                if j == 1 {
                    assert(ed[2] == a[2]);
                }
            } else {
                assert(ed[j] == t[j - 5]);
            }
        }
    }
    lemma_find_is(ed, c, end);
}

/// Envelope tolerance for the SDK command envelope: a screen element that
/// begins with `<screen` and ends with `</screen>` is found as the same
/// document on its own, inside
/// `<sdk guid="..."><in method="...">` and `</in></sdk>`, and behind a
/// declaration `<?xml ...?>` in front of either. The session, the method
/// and the attributes of the declaration are any texts, the first two
/// without `<` and the last without `?`.
pub proof fn lemma_sdk_envelope_tolerated(
    screen: Seq<char>,
    guid: Seq<char>,
    method: Seq<char>,
    attributes: Seq<char>,
)
    requires
        has_prefix(encode_utf8(screen), "<screen".spec_bytes()),
        has_suffix(encode_utf8(screen), "</screen>".spec_bytes()),
        free_of(guid, 0x3c),
        free_of(method, 0x3c),
        free_of(attributes, 0x3f),
    ensures
        ({
            let bare = Ok::<(Seq<char>, Framing), ParseErrorKind>((screen, Framing::Bare));
            let wrapped = Ok::<(Seq<char>, Framing), ParseErrorKind>(
                (screen, Framing::SdkWrapped),
            );
            let envelope = envelope_head(guid, method) + screen + envelope_tail();
            &&& document(screen) == bare
            &&& document(declaration_of(attributes) + screen) == bare
            &&& document(envelope) == wrapped
            &&& document(declaration_of(attributes) + envelope) == wrapped
        }),
{
    lemma_head_is_plain(guid, method);
    lemma_tail_is_plain();
    lemma_declaration_is_plain(attributes);
    lemma_framings_agree(
        screen,
        envelope_head(guid, method),
        envelope_tail(),
        declaration_of(attributes),
    );
}

} // verus!
