//! The readings that a device adds to a track point: temperatures, depth,
//! heart rate and cadence. They stand inside the `extensions` of the point,
//! among whatever else stands there.

use vstd::prelude::*;
use vstd::string::StringSliceAdditionalSpecFns;
use vstd::utf8::encode_utf8;
use crate::error::{Failure, GapixError};
use crate::model::GarminTrackpointExtensions;
use crate::read::xml_reader_extensions::{
    advance, inner_decimal, inner_integer, kind_name, name_of_kind, read_inner_as_decimal,
    read_inner_as_integer, token_at,
};
use crate::text::bytes_eq;
use crate::xml::{Document, Token, XmlEvent};

verus! {

/// The byte of the colon that parts a prefix from a local name.
pub const COLON: u8 = 58;

/// The number of decimal places to which readings are kept.
pub const READING_PLACES: u32 = 3;

/// The first index from `from` on at which `name` holds a colon, or its
/// length.
pub open spec fn colon_index(name: Seq<u8>, from: int) -> int
    decreases name.len() - from,
{
    if from < 0 || from >= name.len() || name[from] == COLON {
        from
    } else {
        colon_index(name, from + 1)
    }
}

/// The name without its prefix: what follows the first colon, or all of it
/// where it has none.
pub open spec fn local_name(name: Seq<u8>) -> Seq<u8> {
    if 0 <= colon_index(name, 0) < name.len() {
        name.subrange(colon_index(name, 0) + 1, name.len() as int)
    } else {
        name
    }
}

/// Is `word` the local name of the element named `name`?
pub open spec fn has_local_name(name: Seq<char>, word: Seq<char>) -> bool {
    local_name(encode_utf8(name)) == encode_utf8(word)
}

/// What has been read, or nothing where nothing has.
pub open spec fn if_any(readings: GarminTrackpointExtensions) -> Option<
    GarminTrackpointExtensions,
> {
    if readings.any() {
        Some(readings)
    } else {
        None
    }
}

/// The readings that the events from `pos` up to, not including, `to`
/// complete. The elements `atemp`, `wtemp`, `depth`, `hr` and `cad`, under
/// any prefix, set what they name; other elements, text and end tags are
/// passed over.
pub open spec fn garmin_children(
    tokens: Seq<Token>,
    readings: GarminTrackpointExtensions,
    pos: int,
    to: int,
) -> Result<Option<GarminTrackpointExtensions>, Failure>
    decreases tokens.len() - pos,
{
    if pos < 0 || pos >= to || pos >= tokens.len() {
        Ok(if_any(readings))
    } else {
        match tokens[pos].event {
            XmlEvent::Start(e) => if has_local_name(e.name@, "atemp"@) {
                match inner_decimal(tokens, pos + 1, READING_PLACES as nat) {
                    Ok(v) => garmin_children(
                        tokens,
                        GarminTrackpointExtensions { air_temp: Some(v), ..readings },
                        pos + 2,
                        to,
                    ),
                    Err(f) => Err(f),
                }
            } else if has_local_name(e.name@, "wtemp"@) {
                match inner_decimal(tokens, pos + 1, READING_PLACES as nat) {
                    Ok(v) => garmin_children(
                        tokens,
                        GarminTrackpointExtensions { water_temp: Some(v), ..readings },
                        pos + 2,
                        to,
                    ),
                    Err(f) => Err(f),
                }
            } else if has_local_name(e.name@, "depth"@) {
                match inner_decimal(tokens, pos + 1, READING_PLACES as nat) {
                    Ok(v) => garmin_children(
                        tokens,
                        GarminTrackpointExtensions { depth: Some(v), ..readings },
                        pos + 2,
                        to,
                    ),
                    Err(f) => Err(f),
                }
            } else if has_local_name(e.name@, "hr"@) {
                match inner_integer(tokens, pos + 1, 0, 255) {
                    Ok(v) => garmin_children(
                        tokens,
                        GarminTrackpointExtensions { heart_rate: Some(v as u8), ..readings },
                        pos + 2,
                        to,
                    ),
                    Err(f) => Err(f),
                }
            } else if has_local_name(e.name@, "cad"@) {
                match inner_integer(tokens, pos + 1, 0, 255) {
                    Ok(v) => garmin_children(
                        tokens,
                        GarminTrackpointExtensions { cadence: Some(v as u8), ..readings },
                        pos + 2,
                        to,
                    ),
                    Err(f) => Err(f),
                }
            } else {
                garmin_children(tokens, readings, pos + 1, to)
            },
            XmlEvent::Text(_) => garmin_children(tokens, readings, pos + 1, to),
            XmlEvent::Undecodable(_) => garmin_children(tokens, readings, pos + 1, to),
            XmlEvent::End(_) => garmin_children(tokens, readings, pos + 1, to),
            XmlEvent::Eof => Ok(if_any(readings)),
            XmlEvent::Malformed(m) => Err(Failure::XmlError(m@)),
            other => Err(Failure::UnexpectedEvent(kind_name(other))),
        }
    }
}

/// The readings of a device among the events from `from` up to, not
/// including, `to`: the inside of an `extensions` element.
pub open spec fn spec_parse_garmin_trackpoint_extensions(
    tokens: Seq<Token>,
    from: int,
    to: int,
) -> Result<Option<GarminTrackpointExtensions>, Failure> {
    garmin_children(
        tokens,
        GarminTrackpointExtensions {
            air_temp: None,
            water_temp: None,
            depth: None,
            heart_rate: None,
            cadence: None,
        },
        from,
        to,
    )
}

/// Is `word` the local name of the element named `name`?
fn local_name_is(name: &str, word: &str) -> (b: bool)
    ensures
        b == has_local_name(name@, word@),
{
    let bytes: &[u8] = name.as_bytes();
    let n: usize = bytes.len();
    let mut i: usize = 0;
    while i < n && bytes[i] != COLON
        invariant
            n == bytes@.len(),
            i <= n,
            colon_index(bytes@, 0) == colon_index(bytes@, i as int),
        decreases n - i,
    {
        i += 1;
    }
    if i < n {
        bytes_eq(&bytes[i + 1..n], word.as_bytes())
    } else {
        bytes_eq(bytes, word.as_bytes())
    }
}

/// The readings, or nothing where none has been taken.
fn some_if_any(readings: GarminTrackpointExtensions) -> (r: Option<GarminTrackpointExtensions>)
    ensures
        r == if_any(readings),
{
    if readings.air_temp.is_some() || readings.water_temp.is_some() || readings.depth.is_some()
        || readings.heart_rate.is_some() || readings.cadence.is_some() {
        Some(readings)
    } else {
        None
    }
}

/// Reads the readings of a device from the inside of an `extensions`
/// element: the events from `from` up to, not including, `to`. There can be
/// anything in such an element, so whatever is not a reading is passed
/// over.
pub fn parse_garmin_trackpoint_extensions(doc: &Document, from: usize, to: usize) -> (parsed:
    Result<Option<GarminTrackpointExtensions>, GapixError>)
    ensures
        parsed matches Ok(g) ==> spec_parse_garmin_trackpoint_extensions(
            doc.tokens@,
            from as int,
            to as int,
        ) == Ok::<Option<GarminTrackpointExtensions>, Failure>(g),
        parsed matches Err(e) ==> spec_parse_garmin_trackpoint_extensions(
            doc.tokens@,
            from as int,
            to as int,
        ) == Err::<Option<GarminTrackpointExtensions>, Failure>(e@),
{
    let mut readings: GarminTrackpointExtensions = GarminTrackpointExtensions::new();
    let mut pos: usize = from;
    let ghost whole = spec_parse_garmin_trackpoint_extensions(doc.tokens@, from as int, to as int);
    loop
        invariant
            whole == spec_parse_garmin_trackpoint_extensions(doc.tokens@, from as int, to as int),
            whole == garmin_children(doc.tokens@, readings, pos as int, to as int),
        decreases doc.tokens@.len() - pos,
    {
        if pos >= to {
            return Ok(some_if_any(readings));
        }
        let token: Option<&Token> = token_at(doc, pos);
        match token {
            None => {
                return Ok(some_if_any(readings));
            },
            Some(t) => match &t.event {
                XmlEvent::Start(e) => {
                    advance(doc, &mut pos);
                    if local_name_is(e.name.as_str(), "atemp") {
                        readings.air_temp = Some(
                            read_inner_as_decimal(doc, &mut pos, READING_PLACES)?,
                        );
                    } else if local_name_is(e.name.as_str(), "wtemp") {
                        readings.water_temp = Some(
                            read_inner_as_decimal(doc, &mut pos, READING_PLACES)?,
                        );
                    } else if local_name_is(e.name.as_str(), "depth") {
                        readings.depth = Some(
                            read_inner_as_decimal(doc, &mut pos, READING_PLACES)?,
                        );
                    } else if local_name_is(e.name.as_str(), "hr") {
                        readings.heart_rate = Some(
                            read_inner_as_integer(doc, &mut pos, 0, 255)? as u8,
                        );
                    } else if local_name_is(e.name.as_str(), "cad") {
                        readings.cadence = Some(
                            read_inner_as_integer(doc, &mut pos, 0, 255)? as u8,
                        );
                    }
                },
                XmlEvent::Text(_) => {
                    advance(doc, &mut pos);
                },
                XmlEvent::Undecodable(_) => {
                    advance(doc, &mut pos);
                },
                XmlEvent::End(_) => {
                    advance(doc, &mut pos);
                },
                XmlEvent::Eof => {
                    return Ok(some_if_any(readings));
                },
                XmlEvent::Malformed(m) => {
                    return Err(GapixError::XmlError(m.clone()));
                },
                other => {
                    return Err(GapixError::UnexpectedEvent(name_of_kind(other).to_owned()));
                },
            },
        }
    }
}

} // verus!
