//! What can go wrong while a track is read or written.

use vstd::prelude::*;
use vstd::string::StringExecFns;
use crate::text::{
    decimal_text, format_decimal, format_integer, format_unsigned, integer_text, unsigned_text,
};

verus! {

/// The ways in which reading or writing a track fails. The readers report
/// each failure by its kind, never by a bare message.
#[derive(Debug)]
pub enum GapixError {
    /// The markup itself is broken; the message is the tokenizer's.
    XmlError(String),
    /// Reading or writing the underlying file failed.
    Io(String),
    /// The device file cannot be decoded; the message is the decoder's.
    FitError(String),
    MandatoryAttributeNotFound(String),
    MandatoryElementNotFound(String),
    ParseFailure { from: String, dest_type: String },
    UnexpectedStartElement(String),
    UnexpectedEndElement(String),
    ElementNotFound(String),
    UnexpectedAttributes { element: String, attributes: String },
    /// Text was expected at this offset; the second field says what came.
    MissingText(u64, String),
    DateParseFailure(String),
    MultipleTracksFound,
    InvalidFixType(String),
    DateFormatFailure(String),
    CreateFile { path: String, source: String },
    NumericConversionError(String),
    UnexpectedEvent(String),
    UnexpectedEof,
    FieldNotFound(String),
    InvalidDGPSStationId(i64),
    InvalidLatitude(i64),
    InvalidLongitude(i64),
    InvalidDegrees(i64),
}

/// A failure, with its texts as sequences of characters.
pub enum Failure {
    XmlError(Seq<char>),
    Io(Seq<char>),
    FitError(Seq<char>),
    MandatoryAttributeNotFound(Seq<char>),
    MandatoryElementNotFound(Seq<char>),
    ParseFailure { from: Seq<char>, dest_type: Seq<char> },
    UnexpectedStartElement(Seq<char>),
    UnexpectedEndElement(Seq<char>),
    ElementNotFound(Seq<char>),
    UnexpectedAttributes { element: Seq<char>, attributes: Seq<char> },
    MissingText(u64, Seq<char>),
    DateParseFailure(Seq<char>),
    MultipleTracksFound,
    InvalidFixType(Seq<char>),
    DateFormatFailure(Seq<char>),
    CreateFile { path: Seq<char>, source: Seq<char> },
    NumericConversionError(Seq<char>),
    UnexpectedEvent(Seq<char>),
    UnexpectedEof,
    FieldNotFound(Seq<char>),
    InvalidDGPSStationId(i64),
    InvalidLatitude(i64),
    InvalidLongitude(i64),
    InvalidDegrees(i64),
}

impl View for GapixError {
    type V = Failure;

    open spec fn view(&self) -> Failure {
        match *self {
            GapixError::XmlError(m) => Failure::XmlError(m@),
            GapixError::Io(m) => Failure::Io(m@),
            GapixError::FitError(m) => Failure::FitError(m@),
            GapixError::MandatoryAttributeNotFound(n) => Failure::MandatoryAttributeNotFound(n@),
            GapixError::MandatoryElementNotFound(n) => Failure::MandatoryElementNotFound(n@),
            GapixError::ParseFailure { from, dest_type } => Failure::ParseFailure {
                from: from@,
                dest_type: dest_type@,
            },
            GapixError::UnexpectedStartElement(n) => Failure::UnexpectedStartElement(n@),
            GapixError::UnexpectedEndElement(n) => Failure::UnexpectedEndElement(n@),
            GapixError::ElementNotFound(n) => Failure::ElementNotFound(n@),
            GapixError::UnexpectedAttributes { element, attributes } => {
                Failure::UnexpectedAttributes { element: element@, attributes: attributes@ }
            },
            GapixError::MissingText(at, what) => Failure::MissingText(at, what@),
            GapixError::DateParseFailure(m) => Failure::DateParseFailure(m@),
            GapixError::MultipleTracksFound => Failure::MultipleTracksFound,
            GapixError::InvalidFixType(t) => Failure::InvalidFixType(t@),
            GapixError::DateFormatFailure(m) => Failure::DateFormatFailure(m@),
            GapixError::CreateFile { path, source } => Failure::CreateFile {
                path: path@,
                source: source@,
            },
            GapixError::NumericConversionError(m) => Failure::NumericConversionError(m@),
            GapixError::UnexpectedEvent(m) => Failure::UnexpectedEvent(m@),
            GapixError::UnexpectedEof => Failure::UnexpectedEof,
            GapixError::FieldNotFound(n) => Failure::FieldNotFound(n@),
            GapixError::InvalidDGPSStationId(id) => Failure::InvalidDGPSStationId(id),
            GapixError::InvalidLatitude(v) => Failure::InvalidLatitude(v),
            GapixError::InvalidLongitude(v) => Failure::InvalidLongitude(v),
            GapixError::InvalidDegrees(v) => Failure::InvalidDegrees(v),
        }
    }
}

/// The outcome `got` is the outcome `expected`, value for value.
pub open spec fn agrees<T: View>(
    got: Result<T, GapixError>,
    expected: Result<T::V, Failure>,
) -> bool {
    match got {
        Ok(v) => expected == Ok::<T::V, Failure>(v@),
        Err(e) => expected == Err::<T::V, Failure>(e@),
    }
}

/// The outcome `got`, reached at index `pos` of the events, is the outcome
/// `expected`, value for value.
pub open spec fn agrees_at<T: View>(
    got: Result<T, GapixError>,
    pos: int,
    expected: Result<(T::V, int), Failure>,
) -> bool {
    match got {
        Ok(v) => expected == Ok::<(T::V, int), Failure>((v@, pos)),
        Err(e) => expected == Err::<(T::V, int), Failure>(e@),
    }
}

/// What a failure says of itself.
pub open spec fn failure_message(failure: Failure) -> Seq<char> {
    match failure {
        Failure::XmlError(m) => m,
        Failure::Io(m) => m,
        Failure::FitError(m) => m,
        Failure::MandatoryAttributeNotFound(n) => "Mandatory attribute "@ + n
            + " was not found on the element"@,
        Failure::MandatoryElementNotFound(n) => "Mandatory element "@ + n + " was not found"@,
        Failure::ParseFailure { from, dest_type } => "Could not parse "@ + from + " into type "@
            + dest_type,
        Failure::UnexpectedStartElement(n) => "Unexpected Start element "@ + n,
        Failure::UnexpectedEndElement(n) => "Unexpected End element "@ + n,
        Failure::ElementNotFound(n) => "Did not find the "@ + n + " element"@,
        Failure::UnexpectedAttributes { element, attributes } => "Element "@ + element
            + " has unexpected extra attributes "@ + attributes,
        Failure::MissingText(at, what) => "Did not find an Event::Text element, buffer position = "@
            + unsigned_text(at as nat) + ", event="@ + what,
        Failure::DateParseFailure(m) => "Date could not be parsed: "@ + m,
        Failure::MultipleTracksFound =>
            "Multiple tracks were found when the operation requires a single track"@,
        Failure::InvalidFixType(t) => t
            + " is not a valid fix type. Valid values are 'none', '2d', '3d', 'dgps', 'pps'"@,
        Failure::DateFormatFailure(m) => "Date could not be formatted: "@ + m,
        Failure::CreateFile { path, source } => "Could not create file "@ + path,
        Failure::NumericConversionError(m) => "Could not perform a numeric conversion: "@ + m,
        Failure::UnexpectedEvent(m) => "Unexpected event received from Xml parser: "@ + m,
        Failure::UnexpectedEof => "Unexpected EOF. Check file for corruption"@,
        Failure::FieldNotFound(n) => "Did not find the field "@ + n,
        Failure::InvalidDGPSStationId(id) => "Invalid DGPS station Id of "@ + integer_text(
            id as int,
        )
            + ". Valid range is 0..=1023"@,
        Failure::InvalidLatitude(v) => "Invalid latitude of "@ + decimal_text(v as int, 7)
            + ". Valid range is -90.0..=90.0"@,
        Failure::InvalidLongitude(v) => "Invalid longitude of "@ + decimal_text(v as int, 7)
            + ". Valid range is -180.0..=180.0"@,
        Failure::InvalidDegrees(v) => "Invalid degrees of "@ + decimal_text(v as int, 3)
            + ". Valid range is 0.0..=360"@,
    }
}

/// `before`, `inner` and `after` in a row.
fn framed(before: &str, inner: &str, after: &str) -> (text: String)
    ensures
        text@ == before@ + inner@ + after@,
{
    let mut text: String = before.to_owned();
    text.append(inner);
    text.append(after);
    text
}

impl GapixError {
    /// What the error says of itself.
    pub fn message(&self) -> (text: String)
        ensures
            text@ == failure_message(self@),
    {
        match self {
            GapixError::XmlError(m) => m.clone(),
            GapixError::Io(m) => m.clone(),
            GapixError::FitError(m) => m.clone(),
            GapixError::MandatoryAttributeNotFound(n) => framed(
                "Mandatory attribute ",
                n.as_str(),
                " was not found on the element",
            ),
            GapixError::MandatoryElementNotFound(n) => framed(
                "Mandatory element ",
                n.as_str(),
                " was not found",
            ),
            GapixError::ParseFailure { from, dest_type } => {
                let mut text: String = framed("Could not parse ", from.as_str(), " into type ");
                text.append(dest_type.as_str());
                text
            },
            GapixError::UnexpectedStartElement(n) => {
                let mut text: String = "Unexpected Start element ".to_owned();
                text.append(n.as_str());
                text
            },
            GapixError::UnexpectedEndElement(n) => {
                let mut text: String = "Unexpected End element ".to_owned();
                text.append(n.as_str());
                text
            },
            GapixError::ElementNotFound(n) => framed("Did not find the ", n.as_str(), " element"),
            GapixError::UnexpectedAttributes { element, attributes } => {
                let mut text: String = framed(
                    "Element ",
                    element.as_str(),
                    " has unexpected extra attributes ",
                );
                text.append(attributes.as_str());
                text
            },
            GapixError::MissingText(at, what) => {
                let mut text: String = framed(
                    "Did not find an Event::Text element, buffer position = ",
                    format_unsigned(*at).as_str(),
                    ", event=",
                );
                text.append(what.as_str());
                text
            },
            GapixError::DateParseFailure(m) => {
                let mut text: String = "Date could not be parsed: ".to_owned();
                text.append(m.as_str());
                text
            },
            GapixError::MultipleTracksFound => {
                "Multiple tracks were found when the operation requires a single track".to_owned()
            },
            GapixError::InvalidFixType(t) => {
                let mut text: String = t.clone();
                text.append(
                    " is not a valid fix type. Valid values are 'none', '2d', '3d', 'dgps', 'pps'",
                );
                text
            },
            GapixError::DateFormatFailure(m) => {
                let mut text: String = "Date could not be formatted: ".to_owned();
                text.append(m.as_str());
                text
            },
            GapixError::CreateFile { path, source } => {
                let mut text: String = "Could not create file ".to_owned();
                text.append(path.as_str());
                text
            },
            GapixError::NumericConversionError(m) => {
                let mut text: String = "Could not perform a numeric conversion: ".to_owned();
                text.append(m.as_str());
                text
            },
            GapixError::UnexpectedEvent(m) => {
                let mut text: String = "Unexpected event received from Xml parser: ".to_owned();
                text.append(m.as_str());
                text
            },
            GapixError::UnexpectedEof => "Unexpected EOF. Check file for corruption".to_owned(),
            GapixError::FieldNotFound(n) => {
                let mut text: String = "Did not find the field ".to_owned();
                text.append(n.as_str());
                text
            },
            GapixError::InvalidDGPSStationId(id) => framed(
                "Invalid DGPS station Id of ",
                format_integer(*id).as_str(),
                ". Valid range is 0..=1023",
            ),
            GapixError::InvalidLatitude(v) => framed(
                "Invalid latitude of ",
                format_decimal(*v, 7).as_str(),
                ". Valid range is -90.0..=90.0",
            ),
            GapixError::InvalidLongitude(v) => framed(
                "Invalid longitude of ",
                format_decimal(*v, 7).as_str(),
                ". Valid range is -180.0..=180.0",
            ),
            GapixError::InvalidDegrees(v) => framed(
                "Invalid degrees of ",
                format_decimal(*v, 3).as_str(),
                ". Valid range is 0.0..=360",
            ),
        }
    }
}

} // verus!
