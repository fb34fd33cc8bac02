//! The reader of device files: from the messages of a file to the track
//! model.
//!
//! The decoder is `fitparser`. It is handed in by the caller, as the
//! function that decodes the bytes of a file: decoding is its work, and
//! what is stated here holds of whatever it returns. Its messages are taken
//! over into plain values first; what the reader makes of them is stated
//! over those.
//!
//! Three kinds of message are read. The file-identity message, which must
//! be there, must declare an activity and gives the time the file was made. Each session message
//! opens a track. Each record message is a point of the track that is open;
//! a record that comes before any session has opened a track goes to a
//! track that is made up for it, and a record that lacks what a point needs
//! is dropped and reading goes on.

use vstd::prelude::*;
use vstd::string::StringExecFns;
use fitparser::Value;
use fitparser::profile::MesgNum;
use crate::error::{agrees, Failure, GapixError};
use crate::extrema::quotient_towards_zero;
use crate::model::{
    track_segment_views, track_views, waypoint_views, GarminTrackpointExtensions, Gpx, GpxView,
    Metadata, Track, TrackSegment, TrackSegmentView, TrackView, Waypoint, WaypointView,
    XmlDeclaration, XmlDeclarationView,
};
use crate::read::waypoint::{position_fault, with_lat_lon};
use crate::text::{format_unsigned, str_eq, unsigned_text};
use crate::widen::{
    float32_thousandths, float64_thousandths, integer_thousandths, thousandths_of_float32,
    thousandths_of_float64, thousandths_of_integer, thousandths_of_unsigned,
};
use crate::xml::{attribute_views, Attribute, AttributeView};

verus! {

/// `fitparser::FitDataRecord`, a message of the decoder: carried through as
/// it is and taken apart by the functions below.
#[verifier::external_type_specification]
#[verifier::external_body]
pub struct ExFitDataRecord(fitparser::FitDataRecord);

/// `fitparser::ErrorKind`, what the decoder finds wrong.
#[verifier::external_type_specification]
#[verifier::external_body]
pub struct ExFitErrorKind(fitparser::ErrorKind);

/// The kinds of message that the reader tells apart.
#[derive(Clone, Copy, Debug, PartialEq, Eq, Structural)]
pub enum FitKind {
    FileId,
    Activity,
    Session,
    Record,
    Other,
}

/// The value of a field, whatever its wire type was.
#[derive(Clone, Debug, PartialEq, Eq)]
pub enum FitValue {
    /// An instant, in milliseconds since the epoch.
    Timestamp(i64),
    /// A whole number from any of the signed wire types, or from an unsigned
    /// one of up to 32 bits.
    Integer(i64),
    /// A whole number from one of the unsigned 64-bit wire types.
    Unsigned(u64),
    /// The bits of a single-precision number.
    Float32(u32),
    /// The bits of a double-precision number.
    Float64(u64),
    Text(String),
    /// An enumeration, an array or an invalid value.
    Other,
}

/// A named field of a message.
#[derive(Clone, Debug, PartialEq, Eq)]
pub struct FitField {
    pub name: String,
    pub value: FitValue,
}

/// A message of a device file.
#[derive(Clone, Debug, PartialEq, Eq)]
pub struct FitMessage {
    pub kind: FitKind,
    pub fields: Vec<FitField>,
}

/// The `Display` text of a `fitparser::ErrorKind`. Nothing is claimed of
/// it.
#[verifier::external_body]
fn fault_of(error: &fitparser::ErrorKind) -> String {
    format!("{}", error)
}

/// What the value of a field of the decoder holds, with the wire types
/// that are read alike taken together.
pub enum FieldContent {
    /// The number of a `Byte`, `UInt8`, `UInt16`, `UInt32`, `UInt8z`,
    /// `UInt16z` or `UInt32z`.
    Small(u32),
    /// The number of an `SInt8`, `SInt16`, `SInt32` or `SInt64`.
    Signed(i64),
    /// The number of a `UInt64` or `UInt64z`.
    Unsigned(u64),
    /// The bits of the number of a `Float64`.
    Double(u64),
    /// The bits of the number of a `Float32`.
    Single(u32),
    /// The text of a `String`.
    Text(Seq<char>),
    /// The instant of a `Timestamp`, in milliseconds since the epoch.
    Instant(i64),
    /// An `Enum`, an `Array` or an `Invalid`.
    Other,
}

/// A field of a message of the decoder: its name and what its value holds.
pub struct RecordField {
    pub name: Seq<char>,
    pub content: FieldContent,
}

/// The fields that a message of the decoder holds, in their order.
pub uninterp spec fn fields_held(record: fitparser::FitDataRecord) -> Seq<RecordField>;

/// The kind of a message of the decoder, with the kinds that are not read
/// taken together.
pub uninterp spec fn kind_held(record: fitparser::FitDataRecord) -> FitKind;

/// `FitDataRecord::kind`, with the kinds that the reader does not read
/// taken together: the kind of the message.
#[verifier::external_body]
fn kind_of(record: &fitparser::FitDataRecord) -> (kind: FitKind)
    ensures
        kind == kind_held(*record),
{
    match record.kind() {
        MesgNum::FileId => FitKind::FileId,
        MesgNum::Activity => FitKind::Activity,
        MesgNum::Session => FitKind::Session,
        MesgNum::Record => FitKind::Record,
        _ => FitKind::Other,
    }
}

/// The length of `FitDataRecord::fields`: how many fields the message
/// holds.
#[verifier::external_body]
fn field_count(record: &fitparser::FitDataRecord) -> (count: usize)
    ensures
        count == fields_held(*record).len(),
{
    record.fields().len()
}

/// `FitDataField::name` of one of `FitDataRecord::fields`: the name of the
/// field at `index`.
#[verifier::external_body]
fn name_at(record: &fitparser::FitDataRecord, index: usize) -> (name: String)
    requires
        index < fields_held(*record).len(),
    ensures
        name@ == fields_held(*record)[index as int].name,
{
    record.fields()[index].name().to_owned()
}

/// Tells the variants of `fitparser::Value` apart, on `FitDataField::value`
/// of the field at `index`: the number in a `Byte`, `UInt8`, `UInt16`,
/// `UInt32`, `UInt8z`, `UInt16z` or `UInt32z`, none for the others.
#[verifier::external_body]
fn small_unsigned_at(record: &fitparser::FitDataRecord, index: usize) -> (small: Option<u32>)
    requires
        index < fields_held(*record).len(),
    ensures
        small == small_unsigned_in(fields_held(*record)[index as int].content),
{
    match record.fields()[index].value() {
        Value::Byte(v) => Some(*v as u32),
        Value::UInt8(v) => Some(*v as u32),
        Value::UInt16(v) => Some(*v as u32),
        Value::UInt32(v) => Some(*v),
        Value::UInt8z(v) => Some(*v as u32),
        Value::UInt16z(v) => Some(*v as u32),
        Value::UInt32z(v) => Some(*v),
        _ => None,
    }
}

/// Tells the variants of `fitparser::Value` apart, on `FitDataField::value`
/// of the field at `index`: the number in an `SInt8`, `SInt16`, `SInt32` or
/// `SInt64`, none for the others.
#[verifier::external_body]
fn signed_at(record: &fitparser::FitDataRecord, index: usize) -> (signed: Option<i64>)
    requires
        index < fields_held(*record).len(),
    ensures
        signed == signed_in(fields_held(*record)[index as int].content),
{
    match record.fields()[index].value() {
        Value::SInt8(v) => Some(*v as i64),
        Value::SInt16(v) => Some(*v as i64),
        Value::SInt32(v) => Some(*v as i64),
        Value::SInt64(v) => Some(*v),
        _ => None,
    }
}

/// Tells the variants of `fitparser::Value` apart, on `FitDataField::value`
/// of the field at `index`: the number in a `UInt64` or `UInt64z`, none for
/// the others.
#[verifier::external_body]
fn unsigned_at(record: &fitparser::FitDataRecord, index: usize) -> (unsigned: Option<u64>)
    requires
        index < fields_held(*record).len(),
    ensures
        unsigned == unsigned_in(fields_held(*record)[index as int].content),
{
    match record.fields()[index].value() {
        Value::UInt64(v) => Some(*v),
        Value::UInt64z(v) => Some(*v),
        _ => None,
    }
}

/// Tells the variants of `fitparser::Value` apart, on `FitDataField::value`
/// of the field at `index`: the bits of the number in a `Float64`, none for
/// the others.
#[verifier::external_body]
fn double_bits_at(record: &fitparser::FitDataRecord, index: usize) -> (bits: Option<u64>)
    requires
        index < fields_held(*record).len(),
    ensures
        bits == double_bits_in(fields_held(*record)[index as int].content),
{
    match record.fields()[index].value() {
        Value::Float64(v) => Some(v.to_bits()),
        _ => None,
    }
}

/// Tells the variants of `fitparser::Value` apart, on `FitDataField::value`
/// of the field at `index`: the bits of the number in a `Float32`, none for
/// the others.
#[verifier::external_body]
fn single_bits_at(record: &fitparser::FitDataRecord, index: usize) -> (bits: Option<u32>)
    requires
        index < fields_held(*record).len(),
    ensures
        bits == single_bits_in(fields_held(*record)[index as int].content),
{
    match record.fields()[index].value() {
        Value::Float32(v) => Some(v.to_bits()),
        _ => None,
    }
}

/// Tells the variants of `fitparser::Value` apart, on `FitDataField::value`
/// of the field at `index`: the text in a `String`, none for the others.
#[verifier::external_body]
fn text_at(record: &fitparser::FitDataRecord, index: usize) -> (text: Option<String>)
    requires
        index < fields_held(*record).len(),
    ensures
        crate::model::text_of(text) == text_in(fields_held(*record)[index as int].content),
{
    match record.fields()[index].value() {
        Value::String(s) => Some(s.clone()),
        _ => None,
    }
}

/// Tells the variants of `fitparser::Value` apart, on `FitDataField::value`
/// of the field at `index`: for a `Timestamp`, `DateTime::timestamp_millis`
/// of it, the instant in milliseconds since the epoch, and none for the
/// others.
#[verifier::external_body]
fn instant_at(record: &fitparser::FitDataRecord, index: usize) -> (instant: Option<i64>)
    requires
        index < fields_held(*record).len(),
    ensures
        instant == instant_in(fields_held(*record)[index as int].content),
{
    match record.fields()[index].value() {
        Value::Timestamp(t) => Some(t.timestamp_millis()),
        _ => None,
    }
}

/// The number of an unsigned wire type of up to 32 bits, where the value
/// holds one.
pub open spec fn small_unsigned_in(content: FieldContent) -> Option<u32> {
    match content {
        FieldContent::Small(v) => Some(v),
        _ => None,
    }
}

/// The number of a signed wire type, where the value holds one.
pub open spec fn signed_in(content: FieldContent) -> Option<i64> {
    match content {
        FieldContent::Signed(v) => Some(v),
        _ => None,
    }
}

/// The number of an unsigned 64-bit wire type, where the value holds one.
pub open spec fn unsigned_in(content: FieldContent) -> Option<u64> {
    match content {
        FieldContent::Unsigned(v) => Some(v),
        _ => None,
    }
}

/// The bits of a double-precision number, where the value holds one.
pub open spec fn double_bits_in(content: FieldContent) -> Option<u64> {
    match content {
        FieldContent::Double(v) => Some(v),
        _ => None,
    }
}

/// The bits of a single-precision number, where the value holds one.
pub open spec fn single_bits_in(content: FieldContent) -> Option<u32> {
    match content {
        FieldContent::Single(v) => Some(v),
        _ => None,
    }
}

/// The text, where the value holds one.
pub open spec fn text_in(content: FieldContent) -> Option<Seq<char>> {
    match content {
        FieldContent::Text(t) => Some(t),
        _ => None,
    }
}

/// The instant, where the value holds one.
pub open spec fn instant_in(content: FieldContent) -> Option<i64> {
    match content {
        FieldContent::Instant(t) => Some(t),
        _ => None,
    }
}

/// The plain value is what the value of a field holds: a whole number for
/// each of the signed wire types and each unsigned one of up to 32 bits,
/// and its like for each of the others.
pub open spec fn is_value_of(value: FitValue, content: FieldContent) -> bool {
    match content {
        FieldContent::Small(v) => value == FitValue::Integer(v as i64),
        FieldContent::Signed(v) => value == FitValue::Integer(v),
        FieldContent::Unsigned(v) => value == FitValue::Unsigned(v),
        FieldContent::Double(bits) => value == FitValue::Float64(bits),
        FieldContent::Single(bits) => value == FitValue::Float32(bits),
        FieldContent::Text(t) => value matches FitValue::Text(s) && s@ == t,
        FieldContent::Instant(t) => value == FitValue::Timestamp(t),
        FieldContent::Other => value is Other,
    }
}

/// The plain message is the message of the decoder: of its kind, with its
/// fields in their order, each under its name and with what its value
/// holds.
pub open spec fn is_message_of(message: FitMessage, record: fitparser::FitDataRecord) -> bool {
    &&& message.kind == kind_held(record)
    &&& message.fields@.len() == fields_held(record).len()
    &&& forall|i: int|
        0 <= i < message.fields@.len() ==> (#[trigger] message.fields@[i]).name@ == fields_held(
            record,
        )[i].name && is_value_of(message.fields@[i].value, fields_held(record)[i].content)
}

/// The plain messages are the messages of the decoder, one for one.
pub open spec fn are_messages_of(
    messages: Seq<FitMessage>,
    records: Seq<fitparser::FitDataRecord>,
) -> bool {
    &&& messages.len() == records.len()
    &&& forall|i: int|
        0 <= i < messages.len() ==> is_message_of(#[trigger] messages[i], records[i])
}

/// Takes the value of the field at `index` over into a plain value.
fn plain_value(record: &fitparser::FitDataRecord, index: usize) -> (value: FitValue)
    requires
        index < fields_held(*record).len(),
    ensures
        is_value_of(value, fields_held(*record)[index as int].content),
{
    if let Some(v) = small_unsigned_at(record, index) {
        FitValue::Integer(v as i64)
    } else if let Some(v) = signed_at(record, index) {
        FitValue::Integer(v)
    } else if let Some(v) = unsigned_at(record, index) {
        FitValue::Unsigned(v)
    } else if let Some(bits) = double_bits_at(record, index) {
        FitValue::Float64(bits)
    } else if let Some(bits) = single_bits_at(record, index) {
        FitValue::Float32(bits)
    } else if let Some(text) = text_at(record, index) {
        FitValue::Text(text)
    } else if let Some(t) = instant_at(record, index) {
        FitValue::Timestamp(t)
    } else {
        FitValue::Other
    }
}

/// Takes a message over into a plain value.
fn plain_message(record: &fitparser::FitDataRecord) -> (message: FitMessage)
    ensures
        is_message_of(message, *record),
{
    let n: usize = field_count(record);
    let mut taken: Vec<FitField> = Vec::new();
    let mut i: usize = 0;
    while i < n
        invariant
            n == fields_held(*record).len(),
            i <= n,
            taken@.len() == i,
            forall|k: int|
                0 <= k < i ==> (#[trigger] taken@[k]).name@ == fields_held(*record)[k].name
                    && is_value_of(taken@[k].value, fields_held(*record)[k].content),
        decreases n - i,
    {
        taken.push(FitField { name: name_at(record, i), value: plain_value(record, i) });
        i += 1;
    }
    FitMessage { kind: kind_of(record), fields: taken }
}

/// Takes the messages of the decoder over into plain values, one for one.
pub fn plain_messages(records: &Vec<fitparser::FitDataRecord>) -> (messages: Vec<FitMessage>)
    ensures
        are_messages_of(messages@, records@),
{
    let n: usize = records.len();
    let mut messages: Vec<FitMessage> = Vec::new();
    let mut i: usize = 0;
    while i < n
        invariant
            n == records@.len(),
            i <= n,
            messages@.len() == i,
            forall|k: int| 0 <= k < i ==> is_message_of(#[trigger] messages@[k], records@[k]),
        decreases n - i,
    {
        messages.push(plain_message(&records[i]));
        i += 1;
    }
    messages
}

/// The outcome of taking over what the decoder returned: its messages
/// taken over one for one, or its failure.
pub open spec fn taken_over(
    messages: Result<Vec<FitMessage>, GapixError>,
    outcome: Result<Vec<fitparser::FitDataRecord>, Box<fitparser::ErrorKind>>,
) -> bool {
    match outcome {
        Ok(records) => messages matches Ok(m) && are_messages_of(m@, records@),
        Err(_) => messages matches Err(e) && e@ is FitError,
    }
}

/// Decodes a device file into its messages with the decoder handed in: the
/// messages that the decoder finds in it, taken over one for one, or the
/// failure of the decoder.
pub fn read_fit_messages<
    D: Fn(&[u8]) -> Result<Vec<fitparser::FitDataRecord>, Box<fitparser::ErrorKind>>,
>(data: &[u8], decoder: &D) -> (messages: Result<Vec<FitMessage>, GapixError>)
    requires
        call_requires(*decoder, (data,)),
    ensures
        exists|outcome: Result<Vec<fitparser::FitDataRecord>, Box<fitparser::ErrorKind>>|
            call_ensures(*decoder, (data,), outcome) && #[trigger] taken_over(messages, outcome),
{
    let outcome = decoder(data);
    let ghost returned = outcome;
    let messages: Result<Vec<FitMessage>, GapixError> = match outcome {
        Err(e) => Err(GapixError::FitError(fault_of(&*e))),
        Ok(records) => Ok(plain_messages(&records)),
    };
    proof {
        assert(taken_over(messages, returned));
    }
    messages
}

/// The scale of positions: a degree is this many semicircles, the unit in
/// which a device file gives latitudes and longitudes.
pub const SEMICIRCLES_PER_DEGREE: i64 = 11_930_465;

/// Index of the first field from `from` on that is named `name`.
pub open spec fn field_index(fields: Seq<FitField>, name: Seq<char>, from: int) -> Option<int>
    decreases fields.len() - from,
{
    if from < 0 || from >= fields.len() {
        None
    } else if fields[from].name@ == name {
        Some(from)
    } else {
        field_index(fields, name, from + 1)
    }
}

/// The value of the first field named `name`.
pub open spec fn field_value(fields: Seq<FitField>, name: Seq<char>) -> Result<FitValue, Failure> {
    match field_index(fields, name, 0) {
        Some(i) => Ok(fields[i].value),
        None => Err(Failure::FieldNotFound(name)),
    }
}

/// The text of the first field named `name`.
pub open spec fn field_text(fields: Seq<FitField>, name: Seq<char>) -> Result<Seq<char>, Failure> {
    match field_value(fields, name) {
        Ok(FitValue::Text(t)) => Ok(t@),
        Ok(_) => Err(
            Failure::NumericConversionError("get_field_string: Field value is of wrong type"@),
        ),
        Err(f) => Err(f),
    }
}

/// The instant of the first field named `name`.
pub open spec fn field_timestamp(fields: Seq<FitField>, name: Seq<char>) -> Result<i64, Failure> {
    match field_value(fields, name) {
        Ok(FitValue::Timestamp(t)) => Ok(t),
        Ok(_) => Err(
            Failure::NumericConversionError("get_field_timestamp: Field value is of wrong type"@),
        ),
        Err(f) => Err(f),
    }
}

/// A value widened to thousandths: every numeric wire type is taken, and a
/// number that thousandths in `i64` cannot hold exactly to the thousandth
/// below it is refused.
pub open spec fn widened(value: FitValue) -> Result<i64, Failure> {
    match value {
        FitValue::Integer(v) => match integer_thousandths(v as int) {
            Some(t) => Ok(t),
            None => Err(Failure::NumericConversionError("Cannot accurately convert the value"@)),
        },
        FitValue::Unsigned(v) => match integer_thousandths(v as int) {
            Some(t) => Ok(t),
            None => Err(Failure::NumericConversionError("Cannot accurately convert the value"@)),
        },
        FitValue::Float32(bits) => match float32_thousandths(bits) {
            Some(t) => Ok(t),
            None => Err(Failure::NumericConversionError("Cannot accurately convert the value"@)),
        },
        FitValue::Float64(bits) => match float64_thousandths(bits) {
            Some(t) => Ok(t),
            None => Err(Failure::NumericConversionError("Cannot accurately convert the value"@)),
        },
        _ => Err(Failure::NumericConversionError("get_field_f64: Field value is of wrong type"@)),
    }
}

/// The number of the first field named `name`, in thousandths.
pub open spec fn field_number(fields: Seq<FitField>, name: Seq<char>) -> Result<i64, Failure> {
    match field_value(fields, name) {
        Ok(v) => widened(v),
        Err(f) => Err(f),
    }
}

/// Thousandths of a semicircle as units of 10^-7 degrees, rounded towards
/// zero: degrees are semicircles over 11930465.
pub open spec fn degrees_of(semicircles: i64) -> i64 {
    quotient_towards_zero(semicircles * 10_000, SEMICIRCLES_PER_DEGREE as int) as i64
}

/// The position of the first field named `name`, in units of 10^-7 degrees.
pub open spec fn field_position(fields: Seq<FitField>, name: Seq<char>) -> Result<i64, Failure> {
    match field_number(fields, name) {
        Ok(s) => Ok(degrees_of(s)),
        Err(f) => Err(f),
    }
}

/// A number of thousandths as a whole number of beats, held between 0 and
/// 255.
pub open spec fn beats_of(thousandths: i64) -> u8 {
    if thousandths < 0 {
        0
    } else if thousandths / 1000 > 255 {
        255
    } else {
        (thousandths / 1000) as u8
    }
}

/// The readings that a record gives beside its fix: the temperature and the
/// heart rate, each where the record has it as a number.
pub open spec fn record_readings(fields: Seq<FitField>) -> Option<GarminTrackpointExtensions> {
    let air_temp = match field_number(fields, "temperature"@) {
        Ok(t) => Some(t),
        Err(_) => None,
    };
    let heart_rate = match field_number(fields, "heart_rate"@) {
        Ok(h) => Some(beats_of(h)),
        Err(_) => None,
    };
    if air_temp is Some || heart_rate is Some {
        Some(
            GarminTrackpointExtensions {
                air_temp,
                water_temp: None,
                depth: None,
                heart_rate,
                cadence: None,
            },
        )
    } else {
        None
    }
}

/// The altitude of a record: its enhanced altitude where it has one as a
/// number, else its altitude where it has that as a number, else none.
pub open spec fn record_altitude(fields: Seq<FitField>) -> Option<i64> {
    match field_number(fields, "enhanced_altitude"@) {
        Ok(a) => Some(a),
        Err(_) => match field_number(fields, "altitude"@) {
            Ok(a) => Some(a),
            Err(_) => None,
        },
    }
}

/// The point that a record makes. A record is well formed where it makes
/// one: it has a latitude and a longitude in range and a time. Its altitude
/// is taken where it has one.
pub open spec fn record_point(fields: Seq<FitField>) -> Result<WaypointView, Failure> {
    match field_position(fields, "position_lat"@) {
        Err(f) => Err(f),
        Ok(lat) => match field_position(fields, "position_long"@) {
            Err(f) => Err(f),
            Ok(lon) => match position_fault(lat, lon) {
                Some(f) => Err(f),
                None => match field_timestamp(fields, "timestamp"@) {
                    Err(f) => Err(f),
                    Ok(time) => Ok(
                        WaypointView {
                            lat,
                            lon,
                            ele: record_altitude(fields),
                            time: Some(time),
                            garmin_extensions: record_readings(fields),
                            ..Waypoint::blank()
                        },
                    ),
                },
            },
        },
    }
}

/// The track that is made up for records that come before any session.
pub open spec fn default_track() -> TrackView {
    TrackView {
        name: Some("Track 0"@),
        type_: Some("unknown"@),
        segments: seq![TrackSegment::blank()],
        ..Track::blank()
    }
}

/// The file with a track to take points, made up where it has none.
pub open spec fn with_default_track(gpx: GpxView) -> GpxView {
    if gpx.tracks.len() > 0 {
        gpx
    } else {
        GpxView { tracks: seq![default_track()], ..gpx }
    }
}

/// The file with one more point at the end of the first segment of its last
/// track.
pub open spec fn with_point(gpx: GpxView, point: WaypointView) -> GpxView {
    let last = gpx.tracks.len() - 1;
    let track = gpx.tracks[last];
    let segment = track.segments[0];
    GpxView {
        tracks: gpx.tracks.update(
            last,
            TrackView {
                segments: track.segments.update(
                    0,
                    TrackSegmentView { points: segment.points.push(point), ..segment },
                ),
                ..track
            },
        ),
        ..gpx
    }
}

/// The type of the track that a session opens, from its sport and its
/// sub-sport as far as it names them.
pub open spec fn session_type(fields: Seq<FitField>) -> Seq<char> {
    match (field_text(fields, "sport"@), field_text(fields, "sub_sport"@)) {
        (Ok(sport), Ok(sub_sport)) => sport + " - "@ + sub_sport,
        (Ok(sport), Err(_)) => sport,
        (Err(_), Ok(sub_sport)) => sub_sport,
        (Err(_), Err(_)) => "unknown"@,
    }
}

/// The number of the track after `count` tracks.
pub open spec fn track_number(count: nat) -> nat {
    if count >= u64::MAX {
        u64::MAX as nat
    } else {
        count + 1
    }
}

/// The track that a session opens in a file of `count` tracks.
pub open spec fn session_track(fields: Seq<FitField>, count: nat) -> TrackView {
    TrackView {
        name: Some("Track "@ + unsigned_text(track_number(count))),
        type_: Some(session_type(fields)),
        segments: seq![TrackSegment::blank()],
        ..Track::blank()
    }
}

/// The file after one more message.
pub open spec fn after_message(gpx: GpxView, message: FitMessage) -> Result<GpxView, Failure> {
    match message.kind {
        FitKind::FileId => match field_text(message.fields@, "type"@) {
            Err(f) => Err(f),
            Ok(file_type) => if file_type != "activity"@ {
                Err(Failure::MultipleTracksFound)
            } else {
                match field_timestamp(message.fields@, "time_created"@) {
                    Err(f) => Err(f),
                    Ok(t) => Ok(
                        GpxView {
                            metadata: crate::model::MetadataView { time: Some(t), ..gpx.metadata },
                            ..gpx
                        },
                    ),
                }
            },
        },
        FitKind::Session => Ok(
            GpxView {
                tracks: gpx.tracks.push(session_track(message.fields@, gpx.tracks.len())),
                ..gpx
            },
        ),
        FitKind::Record => match record_point(message.fields@) {
            Ok(point) => Ok(with_point(with_default_track(gpx), point)),
            Err(_) => Ok(with_default_track(gpx)),
        },
        _ => Ok(gpx),
    }
}

/// The file after the first `n` messages.
pub open spec fn after_messages(gpx: GpxView, messages: Seq<FitMessage>, n: int) -> Result<
    GpxView,
    Failure,
>
    decreases n,
{
    if n <= 0 {
        Ok(gpx)
    } else {
        match after_messages(gpx, messages, n - 1) {
            Ok(g) => after_message(g, messages[n - 1]),
            Err(f) => Err(f),
        }
    }
}

/// The attributes that the root of a file gets which is made from a device
/// file: the namespaces of the format and of the device readings.
pub open spec fn default_garmin_attributes() -> Seq<AttributeView> {
    seq![
        AttributeView { name: "xmlns"@, value: "http://www.topografix.com/GPX/1/1"@ },
        AttributeView {
            name: "xmlns:gpxtpx"@,
            value: "http://www.garmin.com/xmlschemas/TrackPointExtension/v1"@,
        },
    ]
}

/// The file that reading a device file begins with.
pub open spec fn fit_start() -> GpxView {
    GpxView {
        declaration: XmlDeclarationView {
            version: "1.0"@,
            encoding: Some("UTF-8"@),
            standalone: None,
        },
        version: "1.1"@,
        creator: "gapix_core"@,
        attributes: default_garmin_attributes(),
        metadata: crate::model::MetadataView {
            description: Some("Parsed from a FIT file"@),
            ..Metadata::blank()
        },
        ..Gpx::blank()
    }
}

/// Is there a file-identity message among the first `n` messages?
pub open spec fn identified(messages: Seq<FitMessage>, n: int) -> bool
    decreases n,
{
    if n <= 0 {
        false
    } else {
        identified(messages, n - 1) || messages[n - 1].kind == FitKind::FileId
    }
}

/// The file that the messages of a device file make. A file that does not
/// say what it is, is refused.
pub open spec fn spec_read_fit(messages: Seq<FitMessage>) -> Result<GpxView, Failure> {
    match after_messages(fit_start(), messages, messages.len() as int) {
        Ok(gpx) => if identified(messages, messages.len() as int) {
            Ok(gpx)
        } else {
            Err(Failure::ElementNotFound("file_id"@))
        },
        Err(f) => Err(f),
    }
}

/// The number of points in the first `n` tracks.
pub open spec fn point_count(tracks: Seq<TrackView>, n: int) -> int
    decreases n,
{
    if n <= 0 {
        0
    } else {
        point_count(tracks, n - 1) + segment_point_count(
            tracks[n - 1].segments,
            tracks[n - 1].segments.len() as int,
        )
    }
}

/// The number of points in the first `n` segments.
pub open spec fn segment_point_count(segments: Seq<TrackSegmentView>, n: int) -> int
    decreases n,
{
    if n <= 0 {
        0
    } else {
        segment_point_count(segments, n - 1) + segments[n - 1].points.len()
    }
}

/// The number of well-formed records among the first `n` messages.
pub open spec fn well_formed_records(messages: Seq<FitMessage>, n: int) -> int
    decreases n,
{
    if n <= 0 {
        0
    } else {
        well_formed_records(messages, n - 1) + (if messages[n - 1].kind == FitKind::Record
            && record_point(messages[n - 1].fields@) is Ok {
            1int
        } else {
            0int
        })
    }
}

/// The number of messages of a kind among the first `n` messages.
pub open spec fn kind_count(messages: Seq<FitMessage>, kind: FitKind, n: int) -> int
    decreases n,
{
    if n <= 0 {
        0
    } else {
        kind_count(messages, kind, n - 1) + (if messages[n - 1].kind == kind {
            1int
        } else {
            0int
        })
    }
}

/// Counts the messages of a kind. A file is expected to have one activity
/// message; the reader does not refuse a file that has none or several.
pub fn count_messages(messages: &Vec<FitMessage>, kind: FitKind) -> (count: usize)
    ensures
        count == kind_count(messages@, kind, messages@.len() as int),
{
    let n: usize = messages.len();
    let mut count: usize = 0;
    let mut i: usize = 0;
    while i < n
        invariant
            n == messages@.len(),
            i <= n,
            count <= i,
            count == kind_count(messages@, kind, i as int),
        decreases n - i,
    {
        if messages[i].kind == kind {
            count += 1;
        }
        i += 1;
    }
    count
}

/// Finds the first field named `name`.
fn get_field<'a>(fields: &'a Vec<FitField>, name: &str) -> (found: Option<&'a FitField>)
    ensures
        found matches Some(f) ==> (field_index(fields@, name@, 0) matches Some(i) && *f
            == fields@[i]),
        found is None ==> field_index(fields@, name@, 0) is None,
{
    let n: usize = fields.len();
    let mut i: usize = 0;
    while i < n
        invariant
            n == fields@.len(),
            i <= n,
            field_index(fields@, name@, 0) == field_index(fields@, name@, i as int),
        decreases n - i,
    {
        if str_eq(fields[i].name.as_str(), name) {
            return Some(&fields[i]);
        }
        i += 1;
    }
    None
}

/// Gets the value of a field.
fn get_field_value<'a>(fields: &'a Vec<FitField>, name: &str) -> (value: Result<
    &'a FitValue,
    GapixError,
>)
    ensures
        value matches Ok(v) ==> field_value(fields@, name@) == Ok::<FitValue, Failure>(*v),
        value matches Err(e) ==> field_value(fields@, name@) == Err::<FitValue, Failure>(e@),
{
    match get_field(fields, name) {
        Some(field) => Ok(&field.value),
        None => Err(GapixError::FieldNotFound(name.to_owned())),
    }
}

/// Gets the value of a field that holds text.
fn get_field_string<'a>(fields: &'a Vec<FitField>, name: &str) -> (value: Result<
    &'a String,
    GapixError,
>)
    ensures
        value matches Ok(t) ==> field_text(fields@, name@) == Ok::<Seq<char>, Failure>(t@),
        value matches Err(e) ==> field_text(fields@, name@) == Err::<Seq<char>, Failure>(e@),
{
    match get_field_value(fields, name)? {
        FitValue::Text(text) => Ok(text),
        _ => Err(
            GapixError::NumericConversionError(
                "get_field_string: Field value is of wrong type".to_owned(),
            ),
        ),
    }
}

/// Gets the value of a field that holds an instant.
fn get_field_timestamp(fields: &Vec<FitField>, name: &str) -> (value: Result<i64, GapixError>)
    ensures
        value matches Ok(t) ==> field_timestamp(fields@, name@) == Ok::<i64, Failure>(t),
        value matches Err(e) ==> field_timestamp(fields@, name@) == Err::<i64, Failure>(e@),
{
    match get_field_value(fields, name)? {
        FitValue::Timestamp(t) => Ok(*t),
        _ => Err(
            GapixError::NumericConversionError(
                "get_field_timestamp: Field value is of wrong type".to_owned(),
            ),
        ),
    }
}

/// Widens a value of any numeric wire type to thousandths, and refuses what
/// cannot be widened without loss.
pub fn widen(value: &FitValue) -> (number: Result<i64, GapixError>)
    ensures
        number matches Ok(t) ==> widened(*value) == Ok::<i64, Failure>(t),
        number matches Err(e) ==> widened(*value) == Err::<i64, Failure>(e@),
{
    let exact: Option<i64> = match value {
        FitValue::Integer(v) => thousandths_of_integer(*v),
        FitValue::Unsigned(v) => thousandths_of_unsigned(*v),
        FitValue::Float32(bits) => thousandths_of_float32(*bits),
        FitValue::Float64(bits) => thousandths_of_float64(*bits),
        _ => {
            return Err(
                GapixError::NumericConversionError(
                    "get_field_f64: Field value is of wrong type".to_owned(),
                ),
            );
        },
    };
    match exact {
        Some(t) => Ok(t),
        None => Err(
            GapixError::NumericConversionError("Cannot accurately convert the value".to_owned()),
        ),
    }
}

/// Gets the value of a field as a number, converting it if possible.
fn get_field_number(fields: &Vec<FitField>, name: &str) -> (value: Result<i64, GapixError>)
    ensures
        value matches Ok(t) ==> field_number(fields@, name@) == Ok::<i64, Failure>(t),
        value matches Err(e) ==> field_number(fields@, name@) == Err::<i64, Failure>(e@),
{
    widen(get_field_value(fields, name)?)
}

/// Gets the value of a field that holds a latitude or a longitude.
fn get_latlon(fields: &Vec<FitField>, name: &str) -> (value: Result<i64, GapixError>)
    ensures
        value matches Ok(d) ==> field_position(fields@, name@) == Ok::<i64, Failure>(d),
        value matches Err(e) ==> field_position(fields@, name@) == Err::<i64, Failure>(e@),
{
    let semicircles: i64 = get_field_number(fields, name)?;
    let scaled: i128 = (semicircles as i128) * 10_000;
    let degrees: i128 = if scaled >= 0 {
        ((scaled as u128) / (SEMICIRCLES_PER_DEGREE as u128)) as i128
    } else {
        -((((-scaled) as u128) / (SEMICIRCLES_PER_DEGREE as u128)) as i128)
    };
    Ok(degrees as i64)
}

/// A number of thousandths as whole beats.
fn beats(thousandths: i64) -> (b: u8)
    ensures
        b == beats_of(thousandths),
{
    if thousandths < 0 {
        0
    } else if thousandths / 1000 > 255 {
        255
    } else {
        (thousandths / 1000) as u8
    }
}

/// The point that a record makes, or what it lacks to make one.
pub fn point_of_record(data: &FitMessage) -> (point: Result<Waypoint, GapixError>)
    ensures
        agrees(point, record_point(data.fields@)),
{
    let lat: i64 = get_latlon(&data.fields, "position_lat")?;
    let lon: i64 = get_latlon(&data.fields, "position_long")?;
    let mut tp: Waypoint = with_lat_lon(lat, lon)?;
    tp.ele = match get_field_number(&data.fields, "enhanced_altitude") {
        Ok(alt) => Some(alt),
        Err(_) => match get_field_number(&data.fields, "altitude") {
            Ok(alt) => Some(alt),
            Err(_) => None,
        },
    };
    tp.time = Some(get_field_timestamp(&data.fields, "timestamp")?);
    let mut extensions: GarminTrackpointExtensions = GarminTrackpointExtensions::new();
    match get_field_number(&data.fields, "temperature") {
        Ok(temp) => {
            extensions.air_temp = Some(temp);
        },
        Err(_) => {},
    }
    match get_field_number(&data.fields, "heart_rate") {
        Ok(hr) => {
            extensions.heart_rate = Some(beats(hr));
        },
        Err(_) => {},
    }
    if extensions.air_temp.is_some() || extensions.heart_rate.is_some() {
        tp.garmin_extensions = Some(extensions);
    }
    Ok(tp)
}

/// A track with one empty segment.
fn new_track(name: String, track_type: String) -> (track: Track)
    ensures
        track@ == (TrackView {
            name: Some(name@),
            type_: Some(track_type@),
            segments: seq![TrackSegment::blank()],
            ..Track::blank()
        }),
{
    let mut track: Track = Track::default();
    track.name = Some(name);
    track.type_ = Some(track_type);
    track.segments.push(TrackSegment::default());
    proof {
        assert(track_segment_views(track.segments@) =~= seq![TrackSegment::blank()]);
    }
    track
}

/// A session message should precede the record messages of its track, but
/// sometimes it seems to come after them. Rather than complain, this makes
/// a track to which the points can be attached. If the session message does
/// show up later, the file ends up with one extra track.
pub fn ensure_default_track(gpx: &mut Gpx)
    ensures
        final(gpx)@ == with_default_track(old(gpx)@),
{
    if gpx.tracks.len() > 0 {
        return ;
    }
    gpx.tracks.push(new_track("Track 0".to_owned(), "unknown".to_owned()));
    proof {
        assert(track_views(gpx.tracks@) =~= seq![default_track()]);
    }
}

/// Every track has a segment to take points.
pub open spec fn tracks_segmented(gpx: GpxView) -> bool {
    forall|i: int| 0 <= i < gpx.tracks.len() ==> (#[trigger] gpx.tracks[i]).segments.len() > 0
}

/// Parses a record. Certain fields can be missing: if there is not enough
/// to form a valid point, the record is ignored and processing carries on.
/// There tend to be a lot of these, so nothing is made of it.
pub fn parse_record_message(data: &FitMessage, gpx: &mut Gpx)
    requires
        data.kind == FitKind::Record,
        tracks_segmented(old(gpx)@),
    ensures
        after_message(old(gpx)@, *data) == Ok::<GpxView, Failure>(final(gpx)@),
        tracks_segmented(final(gpx)@),
{
    ensure_default_track(gpx);
    let ghost ready = gpx@;
    match point_of_record(data) {
        Err(_) => {},
        Ok(tp) => {
            let ghost before = gpx.tracks@;
            let ghost point = tp@;
            let idx: usize = gpx.tracks.len() - 1;
            proof {
                assert(ready.tracks[idx as int].segments.len() > 0);
            }
            gpx.tracks[idx].segments[0].points.push(tp);
            proof {
                let after = gpx.tracks@;
                let t0 = before[idx as int];
                let t1 = after[idx as int];
                assert(forall|i: int| 0 <= i < after.len() && i != idx ==> after[i] == before[i]);
                assert(t1.segments@.len() == t0.segments@.len());
                assert(forall|j: int|
                    1 <= j < t1.segments@.len() ==> t1.segments@[j] == t0.segments@[j]);
                assert(t1.segments@[0].extensions == t0.segments@[0].extensions);
                assert(waypoint_views(t1.segments@[0].points@) =~= waypoint_views(
                    t0.segments@[0].points@,
                ).push(point));
                assert(track_segment_views(t1.segments@) =~= track_segment_views(
                    t0.segments@,
                ).update(
                    0,
                    TrackSegmentView {
                        points: t0.segments@[0]@.points.push(point),
                        ..t0.segments@[0]@
                    },
                ));
                assert(track_views(gpx.tracks@) =~= with_point(ready, point).tracks);
            }
        },
    }
}

/// Parses a session. Sessions are mapped to tracks.
pub fn parse_session_message(data: &FitMessage, gpx: &mut Gpx)
    requires
        data.kind == FitKind::Session,
        tracks_segmented(old(gpx)@),
    ensures
        after_message(old(gpx)@, *data) == Ok::<GpxView, Failure>(final(gpx)@),
        tracks_segmented(final(gpx)@),
{
    let count: usize = gpx.tracks.len();
    let number: u64 = if count as u64 == u64::MAX {
        u64::MAX
    } else {
        count as u64 + 1
    };
    let mut name: String = "Track ".to_owned();
    name.append(format_unsigned(number).as_str());
    let track_type: String = match (
        get_field_string(&data.fields, "sport"),
        get_field_string(&data.fields, "sub_sport"),
    ) {
        (Ok(sport), Ok(sub_sport)) => {
            let mut both: String = sport.clone();
            both.append(" - ");
            both.append(sub_sport.as_str());
            both
        },
        (Ok(sport), Err(_)) => sport.clone(),
        (Err(_), Ok(sub_sport)) => sub_sport.clone(),
        (Err(_), Err(_)) => "unknown".to_owned(),
    };
    let ghost before = gpx.tracks@;
    let track: Track = new_track(name, track_type);
    gpx.tracks.push(track);
    proof {
        assert(track_views(gpx.tracks@) =~= track_views(before).push(track@));
    }
}

/// Parses the message that says what the file is: it must be an activity.
pub fn parse_file_id_message(data: &FitMessage, gpx: &mut Gpx) -> (done: Result<(), GapixError>)
    requires
        data.kind == FitKind::FileId,
    ensures
        done is Ok ==> after_message(old(gpx)@, *data) == Ok::<GpxView, Failure>(final(gpx)@),
        done matches Err(e) ==> after_message(old(gpx)@, *data) == Err::<GpxView, Failure>(e@),
        final(gpx)@.tracks == old(gpx)@.tracks,
{
    let file_type: &String = get_field_string(&data.fields, "type")?;
    if !str_eq(file_type.as_str(), "activity") {
        return Err(GapixError::MultipleTracksFound);
    }
    let ts: i64 = get_field_timestamp(&data.fields, "time_created")?;
    gpx.metadata.time = Some(ts);
    Ok(())
}

/// The file that reading a device file begins with.
fn start_of_fit() -> (gpx: Gpx)
    ensures
        gpx@ == fit_start(),
{
    let mut gpx: Gpx = Gpx::default();
    gpx.declaration = XmlDeclaration {
        version: "1.0".to_owned(),
        encoding: Some("UTF-8".to_owned()),
        standalone: None,
    };
    gpx.version = "1.1".to_owned();
    gpx.creator = "gapix_core".to_owned();
    let mut attributes: Vec<Attribute> = Vec::new();
    attributes.push(
        Attribute {
            name: "xmlns".to_owned(),
            value: "http://www.topografix.com/GPX/1/1".to_owned(),
        },
    );
    attributes.push(
        Attribute {
            name: "xmlns:gpxtpx".to_owned(),
            value: "http://www.garmin.com/xmlschemas/TrackPointExtension/v1".to_owned(),
        },
    );
    proof {
        assert(attribute_views(attributes@) =~= default_garmin_attributes());
    }
    gpx.attributes = attributes;
    gpx.metadata.description = Some("Parsed from a FIT file".to_owned());
    gpx
}

/// Once a message has made reading fail, the messages after it change
/// nothing.
pub proof fn lemma_failure_lasts(gpx: GpxView, messages: Seq<FitMessage>, k: int, n: int)
    requires
        k <= n,
        after_messages(gpx, messages, k) is Err,
    ensures
        after_messages(gpx, messages, n) == after_messages(gpx, messages, k),
    decreases n - k,
{
    if k < n {
        lemma_failure_lasts(gpx, messages, k, n - 1);
    }
}

/// Lists of segments that agree on their first `n` hold as many points in
/// them.
pub proof fn lemma_segment_points_prefix(a: Seq<TrackSegmentView>, b: Seq<TrackSegmentView>, n: int)
    requires
        n <= a.len(),
        n <= b.len(),
        forall|i: int| 0 <= i < n ==> a[i] == b[i],
    ensures
        segment_point_count(a, n) == segment_point_count(b, n),
    decreases n,
{
    if n > 0 {
        lemma_segment_points_prefix(a, b, n - 1);
    }
}

/// Lists of tracks that agree on their first `n` hold as many points in
/// them.
pub proof fn lemma_track_points_prefix(a: Seq<TrackView>, b: Seq<TrackView>, n: int)
    requires
        n <= a.len(),
        n <= b.len(),
        forall|i: int| 0 <= i < n ==> a[i] == b[i],
    ensures
        point_count(a, n) == point_count(b, n),
    decreases n,
{
    if n > 0 {
        lemma_track_points_prefix(a, b, n - 1);
    }
}

/// A point added to the first of some segments is one point more among the
/// first `n` of them.
pub proof fn lemma_segment_points_grow(
    segments: Seq<TrackSegmentView>,
    point: WaypointView,
    n: int,
)
    requires
        1 <= n <= segments.len(),
    ensures
        segment_point_count(
            segments.update(
                0,
                TrackSegmentView { points: segments[0].points.push(point), ..segments[0] },
            ),
            n,
        ) == segment_point_count(segments, n) + 1,
    decreases n,
{
    let grown = segments.update(
        0,
        TrackSegmentView { points: segments[0].points.push(point), ..segments[0] },
    );
    if n > 1 {
        lemma_segment_points_grow(segments, point, n - 1);
    } else {
        assert(segment_point_count(grown, 0) == 0);
        assert(segment_point_count(segments, 0) == 0);
    }
}

/// One more message adds a point to the file exactly where it is a
/// well-formed record, and leaves every track with a segment.
pub proof fn lemma_message_points(gpx: GpxView, message: FitMessage)
    requires
        tracks_segmented(gpx),
    ensures
        after_message(gpx, message) matches Ok(g) ==> tracks_segmented(g) && point_count(
            g.tracks,
            g.tracks.len() as int,
        ) == point_count(gpx.tracks, gpx.tracks.len() as int) + (if message.kind
            == FitKind::Record && record_point(message.fields@) is Ok {
            1int
        } else {
            0int
        }),
{
    match message.kind {
        FitKind::Session => {
            let track = session_track(message.fields@, gpx.tracks.len());
            let grown = gpx.tracks.push(track);
            lemma_track_points_prefix(grown, gpx.tracks, gpx.tracks.len() as int);
            assert(segment_point_count(track.segments, 1) == segment_point_count(
                track.segments,
                0,
            ) + track.segments[0].points.len());
        },
        FitKind::Record => {
            let ready = with_default_track(gpx);
            lemma_track_points_prefix(ready.tracks, gpx.tracks, gpx.tracks.len() as int);
            if gpx.tracks.len() == 0 {
                let track = default_track();
                assert(segment_point_count(track.segments, 1) == segment_point_count(
                    track.segments,
                    0,
                ) + track.segments[0].points.len());
                assert(point_count(ready.tracks, 1) == point_count(ready.tracks, 0)
                    + segment_point_count(track.segments, 1));
            }
            match record_point(message.fields@) {
                Ok(point) => {
                    let last = ready.tracks.len() - 1;
                    let grown = with_point(ready, point);
                    lemma_track_points_prefix(grown.tracks, ready.tracks, last);
                    lemma_segment_points_grow(
                        ready.tracks[last].segments,
                        point,
                        ready.tracks[last].segments.len() as int,
                    );
                },
                Err(_) => {},
            }
        },
        _ => {},
    }
}

/// A record that lacks what a point needs is dropped and reading goes on:
/// the file that the first `n` messages make holds as many points as there
/// are well-formed records among them.
pub proof fn lemma_points_are_well_formed_records(messages: Seq<FitMessage>, n: int)
    requires
        0 <= n <= messages.len(),
    ensures
        after_messages(fit_start(), messages, n) matches Ok(g) ==> tracks_segmented(g)
            && point_count(g.tracks, g.tracks.len() as int) == well_formed_records(messages, n),
    decreases n,
{
    if n > 0 {
        lemma_points_are_well_formed_records(messages, n - 1);
        match after_messages(fit_start(), messages, n - 1) {
            Ok(g) => {
                lemma_message_points(g, messages[n - 1]);
            },
            Err(_) => {},
        }
    }
}

/// The points of the segment that takes the points of records: the first
/// segment of the last track.
pub open spec fn open_points(gpx: GpxView) -> Seq<WaypointView> {
    gpx.tracks[gpx.tracks.len() - 1].segments[0].points
}

/// Two points taken one after the other are the last two of the segment
/// that takes them, in their order; the file has a track to take points
/// after the first of them.
pub proof fn lemma_points_taken_in_order(gpx: GpxView, first: WaypointView, second: WaypointView)
    requires
        tracks_segmented(gpx),
    ensures
        ({
            let begun = with_default_track(gpx);
            let one = with_point(begun, first);
            let two = with_point(one, second);
            &&& with_default_track(one) == one
            &&& open_points(one) == open_points(begun).push(first)
            &&& open_points(two) == open_points(begun).push(first).push(second)
        }),
{
    let begun = with_default_track(gpx);
    let one = with_point(begun, first);
    assert(begun.tracks.len() > 0);
    assert(begun.tracks[begun.tracks.len() - 1].segments.len() > 0);
    assert(one.tracks.len() == begun.tracks.len());
}

/// A record that makes no point does not part the points around it. Where
/// a record that makes a point, one that makes none and another that makes
/// a point follow each other, reading goes on, the record in the middle
/// leaves the file as it is, and the points of the other two are the last
/// two of the segment that takes them, next to each other and in the order
/// of the records.
pub proof fn lemma_dropped_record_parts_no_points(
    gpx: GpxView,
    before: FitMessage,
    dropped: FitMessage,
    after: FitMessage,
    first: WaypointView,
    second: WaypointView,
)
    requires
        tracks_segmented(gpx),
        before.kind == FitKind::Record,
        dropped.kind == FitKind::Record,
        after.kind == FitKind::Record,
        record_point(before.fields@) == Ok::<WaypointView, Failure>(first),
        record_point(dropped.fields@) is Err,
        record_point(after.fields@) == Ok::<WaypointView, Failure>(second),
    ensures
        ({
            let one = with_point(with_default_track(gpx), first);
            let two = with_point(one, second);
            &&& after_message(gpx, before) == Ok::<GpxView, Failure>(one)
            &&& after_message(one, dropped) == Ok::<GpxView, Failure>(one)
            &&& after_message(one, after) == Ok::<GpxView, Failure>(two)
            &&& open_points(two) == open_points(with_default_track(gpx)).push(first).push(second)
        }),
{
    lemma_points_taken_in_order(gpx, first, second);
}

/// Reads a file from the messages of a device file.
pub fn read_fit_from_reader(messages: &Vec<FitMessage>) -> (gpx: Result<Gpx, GapixError>)
    ensures
        agrees(gpx, spec_read_fit(messages@)),
        gpx matches Ok(g) ==> point_count(g@.tracks, g@.tracks.len() as int) == well_formed_records(
            messages@,
            messages@.len() as int,
        ),
{
    proof {
        lemma_points_are_well_formed_records(messages@, messages@.len() as int);
    }
    let mut gpx: Gpx = start_of_fit();
    let n: usize = messages.len();
    let mut known: bool = false;
    let mut i: usize = 0;
    while i < n
        invariant
            n == messages@.len(),
            i <= n,
            after_messages(fit_start(), messages@, i as int) == Ok::<GpxView, Failure>(gpx@),
            tracks_segmented(gpx@),
            known == identified(messages@, i as int),
        decreases n - i,
    {
        let d: &FitMessage = &messages[i];
        match d.kind {
            FitKind::FileId => {
                known = true;
                match parse_file_id_message(d, &mut gpx) {
                    Ok(()) => {},
                    Err(e) => {
                        proof {
                            lemma_failure_lasts(fit_start(), messages@, i + 1, n as int);
                        }
                        return Err(e);
                    },
                }
            },
            FitKind::Session => {
                parse_session_message(d, &mut gpx);
            },
            FitKind::Record => {
                parse_record_message(d, &mut gpx);
            },
            _ => {},
        }
        i += 1;
    }
    if !known {
        return Err(GapixError::ElementNotFound("file_id".to_owned()));
    }
    Ok(gpx)
}

/// The outcome of reading what the decoder returned: the file that its
/// messages make, or its failure.
pub open spec fn read_over(
    gpx: Result<Gpx, GapixError>,
    outcome: Result<Vec<fitparser::FitDataRecord>, Box<fitparser::ErrorKind>>,
) -> bool {
    match outcome {
        Ok(records) => exists|messages: Seq<FitMessage>|
            are_messages_of(messages, records@) && #[trigger] agrees(
                gpx,
                spec_read_fit(messages),
            ),
        Err(_) => gpx matches Err(e) && e@ is FitError,
    }
}

/// Reads a file from the bytes of a device file, with the decoder handed
/// in.
///
/// The file is the one made by the messages that the decoder returns on
/// the bytes; where the decoder fails, so does the reading.
pub fn read_fit_from_slice<
    D: Fn(&[u8]) -> Result<Vec<fitparser::FitDataRecord>, Box<fitparser::ErrorKind>>,
>(data: &[u8], decoder: &D) -> (gpx: Result<Gpx, GapixError>)
    requires
        call_requires(*decoder, (data,)),
    ensures
        exists|outcome: Result<Vec<fitparser::FitDataRecord>, Box<fitparser::ErrorKind>>|
            call_ensures(*decoder, (data,), outcome) && #[trigger] read_over(gpx, outcome),
{
    let outcome = decoder(data);
    let ghost returned = outcome;
    let gpx: Result<Gpx, GapixError> = match outcome {
        Err(e) => Err(GapixError::FitError(fault_of(&*e))),
        Ok(records) => {
            let messages: Vec<FitMessage> = plain_messages(&records);
            let read: Result<Gpx, GapixError> = read_fit_from_reader(&messages);
            proof {
                assert(are_messages_of(messages@, records@));
                assert(agrees(read, spec_read_fit(messages@)));
            }
            read
        },
    };
    proof {
        assert(read_over(gpx, returned));
    }
    gpx
}

} // verus!
