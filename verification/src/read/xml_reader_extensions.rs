//! Reading the events of a document one after the other.

use vstd::prelude::*;
use vstd::string::StringSliceAdditionalSpecFns;
use vstd::utf8::encode_utf8;
use crate::dates::{parse_utc_date, spec_parse_utc_date};
use crate::error::{Failure, GapixError};
use crate::text::{decimal_value, integer_value, parse_decimal, parse_integer};
use crate::xml::{Document, Token, XmlEvent};

verus! {

/// The event at index `pos`; past the last event the document has ended.
pub open spec fn event_at(tokens: Seq<Token>, pos: int) -> XmlEvent {
    if 0 <= pos < tokens.len() {
        tokens[pos].event
    } else {
        XmlEvent::Eof
    }
}

/// The name of the kind of an event.
pub open spec fn kind_name(event: XmlEvent) -> Seq<char> {
    match event {
        XmlEvent::Decl(_) => "Decl"@,
        XmlEvent::Start(_) => "Start"@,
        XmlEvent::Empty(_) => "Empty"@,
        XmlEvent::End(_) => "End"@,
        XmlEvent::Text(_) => "Text"@,
        XmlEvent::Undecodable(_) => "Text"@,
        XmlEvent::Other => "Other"@,
        XmlEvent::Eof => "Eof"@,
        XmlEvent::Malformed(_) => "Malformed"@,
    }
}

/// The offset at which the event at index `pos` ends.
pub open spec fn offset_at(tokens: Seq<Token>, pos: int) -> u64 {
    if 0 <= pos < tokens.len() {
        tokens[pos].end as u64
    } else {
        0
    }
}

/// The index after `pos`, which does not go past the number of events.
pub open spec fn advanced(tokens: Seq<Token>, pos: int) -> int {
    if pos < tokens.len() {
        pos + 1
    } else {
        pos
    }
}

/// What an event that is neither a start tag nor an end tag does to the
/// reading of an element: text is passed over, anything else is a failure.
pub open spec fn stray(event: XmlEvent) -> Option<Failure> {
    match event {
        XmlEvent::Text(_) => None,
        XmlEvent::Undecodable(_) => None,
        XmlEvent::Malformed(m) => Some(Failure::XmlError(m@)),
        XmlEvent::Eof => Some(Failure::UnexpectedEof),
        other => Some(Failure::UnexpectedEvent(kind_name(other))),
    }
}

/// The text that the event at `pos` holds, or the failure that there is
/// none: the inner text of the element whose start tag came just before.
pub open spec fn inner_text(tokens: Seq<Token>, pos: int) -> Result<Seq<char>, Failure> {
    match event_at(tokens, pos) {
        XmlEvent::Text(t) => Ok(t@),
        XmlEvent::Undecodable(m) => Err(Failure::XmlError(m@)),
        XmlEvent::Malformed(m) => Err(Failure::XmlError(m@)),
        other => Err(Failure::MissingText(offset_at(tokens, pos), kind_name(other))),
    }
}

/// The token at `pos`, if there is one.
pub fn token_at<'a>(doc: &'a Document, pos: usize) -> (token: Option<&'a Token>)
    ensures
        token matches Some(t) ==> pos < doc.tokens@.len() && *t == doc.tokens@[pos as int],
        token is None ==> pos >= doc.tokens@.len(),
{
    if pos < doc.tokens.len() {
        Some(&doc.tokens[pos])
    } else {
        None
    }
}

/// Moves `pos` on by one event, not past the end.
pub fn advance(doc: &Document, pos: &mut usize)
    ensures
        *final(pos) == advanced(doc.tokens@, *old(pos) as int),
{
    if *pos < doc.tokens.len() {
        *pos = *pos + 1;
    }
}

/// The name of the kind of an event.
pub fn name_of_kind(event: &XmlEvent) -> (name: &'static str)
    ensures
        name@ == kind_name(*event),
{
    match event {
        XmlEvent::Decl(_) => "Decl",
        XmlEvent::Start(_) => "Start",
        XmlEvent::Empty(_) => "Empty",
        XmlEvent::End(_) => "End",
        XmlEvent::Text(_) => "Text",
        XmlEvent::Undecodable(_) => "Text",
        XmlEvent::Other => "Other",
        XmlEvent::Eof => "Eof",
        XmlEvent::Malformed(_) => "Malformed",
    }
}

/// The failure that an event makes which is neither a start tag nor an end
/// tag, or nothing where it is text to pass over.
pub fn stray_event(token: Option<&Token>) -> (failure: Option<GapixError>)
    ensures
        failure matches Some(e) ==> stray(
            match token {
                Some(t) => t.event,
                None => XmlEvent::Eof,
            },
        ) == Some(e@),
        failure is None ==> stray(
            match token {
                Some(t) => t.event,
                None => XmlEvent::Eof,
            },
        ) is None,
{
    match token {
        None => Some(GapixError::UnexpectedEof),
        Some(t) => match &t.event {
            XmlEvent::Text(_) => None,
            XmlEvent::Undecodable(_) => None,
            XmlEvent::Malformed(m) => Some(GapixError::XmlError(m.clone())),
            XmlEvent::Eof => Some(GapixError::UnexpectedEof),
            other => Some(GapixError::UnexpectedEvent(name_of_kind(other).to_owned())),
        },
    }
}

/// Reads the text inside the element whose start tag has just been read,
/// and moves on past it.
pub fn read_inner_as_string(doc: &Document, pos: &mut usize) -> (text: Result<String, GapixError>)
    ensures
        *final(pos) == advanced(doc.tokens@, *old(pos) as int),
        text matches Ok(t) ==> inner_text(doc.tokens@, *old(pos) as int) == Ok::<_, Failure>(t@),
        text matches Err(e) ==> inner_text(doc.tokens@, *old(pos) as int) == Err::<Seq<char>, _>(
            e@,
        ),
{
    let token: Option<&Token> = token_at(doc, *pos);
    advance(doc, pos);
    match token {
        None => Err(GapixError::MissingText(0, "Eof".to_owned())),
        Some(t) => match &t.event {
            XmlEvent::Text(text) => Ok(text.clone()),
            XmlEvent::Undecodable(m) => Err(GapixError::XmlError(m.clone())),
            XmlEvent::Malformed(m) => Err(GapixError::XmlError(m.clone())),
            other => Err(GapixError::MissingText(t.end as u64, name_of_kind(other).to_owned())),
        },
    }
}

/// The decimal number at `scale` places that the event at `pos` holds as
/// text.
pub open spec fn inner_decimal(tokens: Seq<Token>, pos: int, scale: nat) -> Result<i64, Failure> {
    match inner_text(tokens, pos) {
        Err(f) => Err(f),
        Ok(text) => match decimal_value(encode_utf8(text), scale) {
            Some(v) => Ok(v),
            None => Err(Failure::ParseFailure { from: text, dest_type: "decimal"@ }),
        },
    }
}

/// The whole number between `min` and `max` that the event at `pos` holds
/// as text.
pub open spec fn inner_integer(tokens: Seq<Token>, pos: int, min: i64, max: i64) -> Result<
    i64,
    Failure,
> {
    match inner_text(tokens, pos) {
        Err(f) => Err(f),
        Ok(text) => match integer_value(encode_utf8(text)) {
            Some(v) => if min <= v <= max {
                Ok(v)
            } else {
                Err(Failure::ParseFailure { from: text, dest_type: "integer"@ })
            },
            None => Err(Failure::ParseFailure { from: text, dest_type: "integer"@ }),
        },
    }
}

/// The instant that the event at `pos` holds as text.
pub open spec fn inner_time(tokens: Seq<Token>, pos: int) -> Result<i64, Failure> {
    match inner_text(tokens, pos) {
        Err(f) => Err(f),
        Ok(text) => spec_parse_utc_date(text),
    }
}

/// Reads the inner text of an element as a decimal number, in units of
/// 10^-`scale`.
pub fn read_inner_as_decimal(doc: &Document, pos: &mut usize, scale: u32) -> (value: Result<
    i64,
    GapixError,
>)
    requires
        scale <= 18,
    ensures
        *final(pos) == advanced(doc.tokens@, *old(pos) as int),
        value matches Ok(v) ==> inner_decimal(doc.tokens@, *old(pos) as int, scale as nat) == Ok::<
            i64,
            Failure,
        >(v),
        value matches Err(e) ==> inner_decimal(
            doc.tokens@,
            *old(pos) as int,
            scale as nat,
        ) == Err::<
            i64,
            Failure,
        >(e@),
{
    let text: String = read_inner_as_string(doc, pos)?;
    match parse_decimal(text.as_str(), scale) {
        Some(v) => Ok(v),
        None => Err(GapixError::ParseFailure { from: text, dest_type: "decimal".to_owned() }),
    }
}

/// Reads the inner text of an element as a whole number between `min` and
/// `max`.
pub fn read_inner_as_integer(doc: &Document, pos: &mut usize, min: i64, max: i64) -> (value: Result<
    i64,
    GapixError,
>)
    ensures
        *final(pos) == advanced(doc.tokens@, *old(pos) as int),
        value matches Ok(v) ==> inner_integer(doc.tokens@, *old(pos) as int, min, max) == Ok::<
            i64,
            Failure,
        >(v) && min <= v <= max,
        value matches Err(e) ==> inner_integer(doc.tokens@, *old(pos) as int, min, max) == Err::<
            i64,
            Failure,
        >(e@),
{
    let text: String = read_inner_as_string(doc, pos)?;
    match parse_integer(text.as_str()) {
        Some(v) => if min <= v && v <= max {
            Ok(v)
        } else {
            Err(GapixError::ParseFailure { from: text, dest_type: "integer".to_owned() })
        },
        None => Err(GapixError::ParseFailure { from: text, dest_type: "integer".to_owned() }),
    }
}

/// Reads the inner text of an element as an instant.
pub fn read_inner_as_time(doc: &Document, pos: &mut usize) -> (value: Result<i64, GapixError>)
    ensures
        *final(pos) == advanced(doc.tokens@, *old(pos) as int),
        value matches Ok(v) ==> inner_time(doc.tokens@, *old(pos) as int) == Ok::<i64, Failure>(v),
        value matches Err(e) ==> inner_time(doc.tokens@, *old(pos) as int) == Err::<i64, Failure>(
            e@,
        ),
{
    let text: String = read_inner_as_string(doc, pos)?;
    parse_utc_date(text.as_str())
}

} // verus!
