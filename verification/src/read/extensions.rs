//! The `extensions` element, which may hold anything: its content is kept
//! as it is written, without its surrounding white space.

use vstd::prelude::*;
use vstd::utf8::{decode_utf8, valid_utf8};
use crate::error::{agrees_at, Failure, GapixError};
use crate::model::{Extensions, ExtensionsView};
use crate::read::attributes::{unwanted, Attributes};
use crate::text::str_eq;
use crate::xml::{decode, decode_fault, trim, trimmed, Document, Element, Token, XmlEvent};

verus! {

/// Index of the end tag that closes the element named `name` whose content
/// begins at `pos`, when `depth` elements of that name inside it are still
/// open. The document must not end, nor its markup break, before that tag.
pub open spec fn closing_index(tokens: Seq<Token>, name: Seq<char>, pos: int, depth: nat) -> Result<
    int,
    Failure,
>
    decreases tokens.len() - pos,
{
    if pos < 0 || pos >= tokens.len() {
        Err(Failure::UnexpectedEof)
    } else {
        match tokens[pos].event {
            XmlEvent::Start(e) => closing_index(
                tokens,
                name,
                pos + 1,
                if e.name@ == name {
                    depth + 1
                } else {
                    depth
                },
            ),
            XmlEvent::End(n) => if n@ != name {
                closing_index(tokens, name, pos + 1, depth)
            } else if depth == 0 {
                Ok(pos)
            } else {
                closing_index(tokens, name, pos + 1, (depth - 1) as nat)
            },
            XmlEvent::Eof => Err(Failure::UnexpectedEof),
            XmlEvent::Malformed(m) => Err(Failure::XmlError(m@)),
            _ => closing_index(tokens, name, pos + 1, depth),
        }
    }
}

/// The offset at which the event before index `pos` ends: where the event
/// at `pos` begins.
pub open spec fn offset_before(tokens: Seq<Token>, pos: int) -> int {
    if 1 <= pos <= tokens.len() {
        tokens[pos - 1].end as int
    } else {
        0
    }
}

/// The text of the document between the events at `from` and at `to`,
/// without the white space around it.
pub open spec fn raw_between(doc: Document, from: int, to: int) -> Result<Seq<char>, Failure> {
    let begin = offset_before(doc.tokens@, from);
    let end = offset_before(doc.tokens@, to);
    if !(begin <= end <= doc.data@.len()) {
        Err(Failure::UnexpectedEvent("offsets out of step"@))
    } else if valid_utf8(doc.data@.subrange(begin, end)) {
        Ok(trimmed(decode_utf8(doc.data@.subrange(begin, end))))
    } else {
        Err(Failure::XmlError(decode_fault(doc.data@.subrange(begin, end))))
    }
}

/// The extensions that a start tag and the events after it make: all that
/// is written between the tag and the end tag that closes it. The tag must
/// have no attributes.
pub open spec fn spec_parse_extensions(start_element: Element, doc: Document, pos: int) -> Result<
    (ExtensionsView, int),
    Failure,
> {
    match unwanted(start_element) {
        Some(f) => Err(f),
        None => match closing_index(doc.tokens@, "extensions"@, pos, 0) {
            Err(f) => Err(f),
            Ok(close) => match raw_between(doc, pos, close) {
                Err(f) => Err(f),
                Ok(raw) => Ok((ExtensionsView { raw_xml: raw }, close + 1)),
            },
        },
    }
}

/// Finds the end tag that closes the element named `name` whose content
/// begins at `pos`.
fn find_closing(doc: &Document, name: &str, pos: usize) -> (found: Result<usize, GapixError>)
    ensures
        found matches Ok(close) ==> closing_index(doc.tokens@, name@, pos as int, 0) == Ok::<
            int,
            Failure,
        >(close as int) && pos <= close < doc.tokens@.len(),
        found matches Err(e) ==> closing_index(doc.tokens@, name@, pos as int, 0) == Err::<
            int,
            Failure,
        >(e@),
{
    let n: usize = doc.tokens.len();
    let mut at: usize = pos;
    let mut depth: usize = 0;
    while at < n
        invariant
            n == doc.tokens@.len(),
            pos <= at,
            depth <= at - pos,
            closing_index(doc.tokens@, name@, pos as int, 0) == closing_index(
                doc.tokens@,
                name@,
                at as int,
                depth as nat,
            ),
        decreases n - at,
    {
        match &doc.tokens[at].event {
            XmlEvent::Start(e) => {
                if str_eq(e.name.as_str(), name) {
                    depth += 1;
                }
            },
            XmlEvent::End(end_name) => {
                if str_eq(end_name.as_str(), name) {
                    if depth == 0 {
                        return Ok(at);
                    }
                    depth -= 1;
                }
            },
            XmlEvent::Eof => {
                return Err(GapixError::UnexpectedEof);
            },
            XmlEvent::Malformed(m) => {
                return Err(GapixError::XmlError(m.clone()));
            },
            _ => {},
        }
        at += 1;
    }
    Err(GapixError::UnexpectedEof)
}

/// The offset at which the event at `pos` begins.
fn start_offset(doc: &Document, pos: usize) -> (offset: usize)
    ensures
        offset == offset_before(doc.tokens@, pos as int),
{
    if 1 <= pos && pos <= doc.tokens.len() {
        doc.tokens[pos - 1].end
    } else {
        0
    }
}

/// Cuts the text between the events at `from` and at `to` out of the
/// document.
pub fn read_raw(doc: &Document, from: usize, to: usize) -> (raw: Result<String, GapixError>)
    ensures
        raw matches Ok(t) ==> raw_between(*doc, from as int, to as int) == Ok::<Seq<char>, Failure>(
            t@,
        ),
        raw matches Err(e) ==> raw_between(*doc, from as int, to as int) == Err::<
            Seq<char>,
            Failure,
        >(e@),
{
    let begin: usize = start_offset(doc, from);
    let end: usize = start_offset(doc, to);
    if begin > end || end > doc.data.len() {
        return Err(GapixError::UnexpectedEvent("offsets out of step".to_owned()));
    }
    match decode(&doc.data[begin..end]) {
        Ok(text) => Ok(trim(text.as_str())),
        Err(m) => Err(GapixError::XmlError(m)),
    }
}

/// Parses an `extensions` element whose start tag has just been read, and
/// moves `pos` past its end tag.
pub fn parse_extensions(start_element: &Element, doc: &Document, pos: &mut usize) -> (extensions:
    Result<Extensions, GapixError>)
    ensures
        agrees_at(
            extensions,
            *final(pos) as int,
            spec_parse_extensions(*start_element, *doc, *old(pos) as int),
        ),
        extensions is Ok ==> *old(pos) < *final(pos) <= doc.tokens@.len(),
{
    Attributes::check_is_empty(start_element)?;
    let close: usize = find_closing(doc, "extensions", *pos)?;
    let raw_xml: String = read_raw(doc, *pos, close)?;
    let n: usize = doc.tokens.len();
    *pos = close + 1;
    Ok(Extensions { raw_xml })
}

} // verus!
