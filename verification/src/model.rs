//! The track model: a file of waypoints, routes and tracks as it is read
//! from either format and written back.
//!
//! Every type that holds text or a list has a value over sequences, its
//! view, in which the contracts of the readers and the writer are stated.

use vstd::prelude::*;
use crate::error::GapixError;
use crate::point::{latitude_in_range, longitude_in_range, MAX_LATITUDE, MAX_LONGITUDE};
use crate::text::str_eq;
use crate::xml::{attribute_views, Attribute, AttributeView};

verus! {

/// The characters of a text that may be missing.
pub open spec fn text_of(text: Option<String>) -> Option<Seq<char>> {
    match text {
        Some(t) => Some(t@),
        None => None,
    }
}

/// The kind of fix that a receiver had.
#[derive(Clone, Copy, Debug, PartialEq, Eq, Structural)]
pub enum FixType {
    NoFix,
    TwoDimensional,
    ThreeDimensional,
    DGPS,
    PPS,
}

impl FixType {
    /// The word that a file has for the kind of fix.
    pub open spec fn word(self) -> Seq<char> {
        match self {
            FixType::NoFix => "none"@,
            FixType::TwoDimensional => "2d"@,
            FixType::ThreeDimensional => "3d"@,
            FixType::DGPS => "dgps"@,
            FixType::PPS => "pps"@,
        }
    }

    /// The kind of fix that `word` names, if it names one.
    pub open spec fn named(word: Seq<char>) -> Option<FixType> {
        if word == "none"@ {
            Some(FixType::NoFix)
        } else if word == "2d"@ {
            Some(FixType::TwoDimensional)
        } else if word == "3d"@ {
            Some(FixType::ThreeDimensional)
        } else if word == "dgps"@ {
            Some(FixType::DGPS)
        } else if word == "pps"@ {
            Some(FixType::PPS)
        } else {
            None
        }
    }

    /// The word that a file has for the kind of fix.
    pub fn as_str(&self) -> (word: &'static str)
        ensures
            word@ == self.word(),
    {
        match self {
            FixType::NoFix => "none",
            FixType::TwoDimensional => "2d",
            FixType::ThreeDimensional => "3d",
            FixType::DGPS => "dgps",
            FixType::PPS => "pps",
        }
    }

    /// The kind of fix that `word` names. The valid words are 'none', '2d',
    /// '3d', 'dgps' and 'pps'.
    pub fn from_text(word: &str) -> (fix: Result<FixType, GapixError>)
        ensures
            fix matches Ok(f) ==> FixType::named(word@) == Some(f),
            fix matches Err(e) ==> FixType::named(word@) is None && e@
                == crate::error::Failure::InvalidFixType(word@),
    {
        if str_eq(word, "none") {
            Ok(FixType::NoFix)
        } else if str_eq(word, "2d") {
            Ok(FixType::TwoDimensional)
        } else if str_eq(word, "3d") {
            Ok(FixType::ThreeDimensional)
        } else if str_eq(word, "dgps") {
            Ok(FixType::DGPS)
        } else if str_eq(word, "pps") {
            Ok(FixType::PPS)
        } else {
            Err(GapixError::InvalidFixType(word.to_owned()))
        }
    }
}

/// The corners of the rectangle that a file's points lie in.
#[derive(Clone, Copy, Debug, PartialEq, Eq, Structural)]
pub struct Bounds {
    pub min_lat: i64,
    pub min_lon: i64,
    pub max_lat: i64,
    pub max_lon: i64,
}

/// The first of the four corners that is out of range, as the failure it
/// makes; none where all are in range.
pub open spec fn bounds_fault(min_lat: i64, min_lon: i64, max_lat: i64, max_lon: i64) -> Option<
    crate::error::Failure,
> {
    if !latitude_in_range(min_lat) {
        Some(crate::error::Failure::InvalidLatitude(min_lat))
    } else if !longitude_in_range(min_lon) {
        Some(crate::error::Failure::InvalidLongitude(min_lon))
    } else if !latitude_in_range(max_lat) {
        Some(crate::error::Failure::InvalidLatitude(max_lat))
    } else if !longitude_in_range(max_lon) {
        Some(crate::error::Failure::InvalidLongitude(max_lon))
    } else {
        None
    }
}

impl View for Bounds {
    type V = Bounds;

    open spec fn view(&self) -> Bounds {
        *self
    }
}

impl View for GarminTrackpointExtensions {
    type V = GarminTrackpointExtensions;

    open spec fn view(&self) -> GarminTrackpointExtensions {
        *self
    }
}

impl Bounds {
    /// Bounds with the given corners, each of which must be a latitude or a
    /// longitude in range.
    pub fn new(min_lat: i64, min_lon: i64, max_lat: i64, max_lon: i64) -> (bounds: Result<
        Bounds,
        GapixError,
    >)
        ensures
            bounds matches Ok(b) ==> bounds_fault(min_lat, min_lon, max_lat, max_lon) is None && b
                == (Bounds { min_lat, min_lon, max_lat, max_lon }),
            bounds matches Err(e) ==> bounds_fault(min_lat, min_lon, max_lat, max_lon) == Some(e@),
    {
        if min_lat < -MAX_LATITUDE || min_lat > MAX_LATITUDE {
            Err(GapixError::InvalidLatitude(min_lat))
        } else if min_lon < -MAX_LONGITUDE || min_lon > MAX_LONGITUDE {
            Err(GapixError::InvalidLongitude(min_lon))
        } else if max_lat < -MAX_LATITUDE || max_lat > MAX_LATITUDE {
            Err(GapixError::InvalidLatitude(max_lat))
        } else if max_lon < -MAX_LONGITUDE || max_lon > MAX_LONGITUDE {
            Err(GapixError::InvalidLongitude(max_lon))
        } else {
            Ok(Bounds { min_lat, min_lon, max_lat, max_lon })
        }
    }
}

/// What a device adds to a track point: temperatures and depth, in
/// thousandths of a degree Celsius and of a metre, heart rate and cadence.
#[derive(Clone, Copy, Debug, PartialEq, Eq, Structural)]
pub struct GarminTrackpointExtensions {
    pub air_temp: Option<i64>,
    pub water_temp: Option<i64>,
    pub depth: Option<i64>,
    pub heart_rate: Option<u8>,
    pub cadence: Option<u8>,
}

impl GarminTrackpointExtensions {
    /// Readings with nothing read.
    pub fn new() -> (blank: Self)
        ensures
            blank == (GarminTrackpointExtensions {
                air_temp: None,
                water_temp: None,
                depth: None,
                heart_rate: None,
                cadence: None,
            }),
    {
        GarminTrackpointExtensions {
            air_temp: None,
            water_temp: None,
            depth: None,
            heart_rate: None,
            cadence: None,
        }
    }

    /// Has any reading been taken?
    pub open spec fn any(self) -> bool {
        self.air_temp is Some || self.water_temp is Some || self.depth is Some
            || self.heart_rate is Some || self.cadence is Some
    }
}

/// The largest magnetic variation, which is less than a full turn.
pub const FULL_TURN: i64 = 360_000;

/// The largest identifier of a DGPS station.
pub const MAX_DGPS_STATION_ID: i64 = 1023;

/// Degrees of magnetic variation are valid from 0 up to, not including, 360.
pub fn validate_degrees(degrees: i64) -> (valid: Result<i64, GapixError>)
    ensures
        valid matches Ok(d) ==> d == degrees && 0 <= degrees < FULL_TURN,
        valid matches Err(e) ==> !(0 <= degrees < FULL_TURN) && e@
            == crate::error::Failure::InvalidDegrees(degrees),
{
    if degrees < 0 || degrees >= FULL_TURN {
        Err(GapixError::InvalidDegrees(degrees))
    } else {
        Ok(degrees)
    }
}

/// Identifiers of DGPS stations are valid from 0 to 1023.
pub fn validate_dgps_station_id(id: i64) -> (valid: Result<u16, GapixError>)
    ensures
        valid matches Ok(v) ==> v == id && 0 <= id <= MAX_DGPS_STATION_ID,
        valid matches Err(e) ==> !(0 <= id <= MAX_DGPS_STATION_ID) && e@
            == crate::error::Failure::InvalidDGPSStationId(id),
{
    if id < 0 || id > MAX_DGPS_STATION_ID {
        Err(GapixError::InvalidDGPSStationId(id))
    } else {
        Ok(id as u16)
    }
}

/// The XML declaration of a document.
#[derive(Clone, Debug, PartialEq, Eq)]
pub struct XmlDeclaration {
    pub version: String,
    pub encoding: Option<String>,
    pub standalone: Option<String>,
}

/// The value of a [`XmlDeclaration`].
pub struct XmlDeclarationView {
    pub version: Seq<char>,
    pub encoding: Option<Seq<char>>,
    pub standalone: Option<Seq<char>>,
}

impl View for XmlDeclaration {
    type V = XmlDeclarationView;

    open spec fn view(&self) -> XmlDeclarationView {
        XmlDeclarationView {
            version: self.version@,
            encoding: text_of(self.encoding),
            standalone: text_of(self.standalone),
        }
    }
}

/// An e-mail address in two parts, to keep harvesters off it.
#[derive(Clone, Debug, PartialEq, Eq)]
pub struct Email {
    pub id: String,
    pub domain: String,
}

/// The value of a [`Email`].
pub struct EmailView {
    pub id: Seq<char>,
    pub domain: Seq<char>,
}

impl View for Email {
    type V = EmailView;

    open spec fn view(&self) -> EmailView {
        EmailView {
            id: self.id@,
            domain: self.domain@,
        }
    }
}

/// A link to a web page or other material.
#[derive(Clone, Debug, PartialEq, Eq)]
pub struct Link {
    pub href: String,
    pub text: Option<String>,
    pub type_: Option<String>,
}

/// The value of a [`Link`].
pub struct LinkView {
    pub href: Seq<char>,
    pub text: Option<Seq<char>>,
    pub type_: Option<Seq<char>>,
}

impl View for Link {
    type V = LinkView;

    open spec fn view(&self) -> LinkView {
        LinkView {
            href: self.href@,
            text: text_of(self.text),
            type_: text_of(self.type_),
        }
    }
}

/// The values of a list of [`Link`]s.
pub open spec fn link_views(items: Seq<Link>) -> Seq<LinkView> {
    items.map_values(|item: Link| item@)
}

/// A person or an organisation.
#[derive(Clone, Debug, PartialEq, Eq)]
pub struct Person {
    pub name: Option<String>,
    pub email: Option<Email>,
    pub link: Option<Link>,
}

/// The value of a [`Person`].
pub struct PersonView {
    pub name: Option<Seq<char>>,
    pub email: Option<EmailView>,
    pub link: Option<LinkView>,
}

impl View for Person {
    type V = PersonView;

    open spec fn view(&self) -> PersonView {
        PersonView {
            name: text_of(self.name),
            email: match self.email { Some(v) => Some(v@), None => None },
            link: match self.link { Some(v) => Some(v@), None => None },
        }
    }
}

/// Who holds the copyright of a file, and under what licence.
#[derive(Clone, Debug, PartialEq, Eq)]
pub struct Copyright {
    pub year: Option<i16>,
    pub license: Option<String>,
    pub author: String,
}

/// The value of a [`Copyright`].
pub struct CopyrightView {
    pub year: Option<i16>,
    pub license: Option<Seq<char>>,
    pub author: Seq<char>,
}

impl View for Copyright {
    type V = CopyrightView;

    open spec fn view(&self) -> CopyrightView {
        CopyrightView {
            year: self.year,
            license: text_of(self.license),
            author: self.author@,
        }
    }
}

/// The content of an `extensions` element, kept as it is written.
#[derive(Clone, Debug, PartialEq, Eq)]
pub struct Extensions {
    pub raw_xml: String,
}

/// The value of a [`Extensions`].
pub struct ExtensionsView {
    pub raw_xml: Seq<char>,
}

impl View for Extensions {
    type V = ExtensionsView;

    open spec fn view(&self) -> ExtensionsView {
        ExtensionsView {
            raw_xml: self.raw_xml@,
        }
    }
}

/// A waypoint, a point of a route or a point of a track. The latitude and
/// the longitude are in units of 10^-7 degrees, and in range where the point
/// has been read or made by `with_lat_lon`; the time
/// is in milliseconds since the epoch; the elevation, the magnetic
/// variation, the height of the geoid, the dilutions of precision and the age
/// of the DGPS data are in thousandths of their units.
#[derive(Clone, Debug, PartialEq, Eq)]
pub struct Waypoint {
    pub lat: i64,
    pub lon: i64,
    pub ele: Option<i64>,
    pub time: Option<i64>,
    pub magvar: Option<i64>,
    pub geoid_height: Option<i64>,
    pub name: Option<String>,
    pub comment: Option<String>,
    pub description: Option<String>,
    pub source: Option<String>,
    pub links: Vec<Link>,
    pub symbol: Option<String>,
    pub type_: Option<String>,
    pub fix: Option<FixType>,
    pub num_satellites: Option<u16>,
    pub hdop: Option<i64>,
    pub vdop: Option<i64>,
    pub pdop: Option<i64>,
    pub age_of_dgps_data: Option<i64>,
    pub dgps_id: Option<u16>,
    pub extensions: Option<Extensions>,
    pub garmin_extensions: Option<GarminTrackpointExtensions>,
}

/// The value of a [`Waypoint`].
pub struct WaypointView {
    pub lat: i64,
    pub lon: i64,
    pub ele: Option<i64>,
    pub time: Option<i64>,
    pub magvar: Option<i64>,
    pub geoid_height: Option<i64>,
    pub name: Option<Seq<char>>,
    pub comment: Option<Seq<char>>,
    pub description: Option<Seq<char>>,
    pub source: Option<Seq<char>>,
    pub links: Seq<LinkView>,
    pub symbol: Option<Seq<char>>,
    pub type_: Option<Seq<char>>,
    pub fix: Option<FixType>,
    pub num_satellites: Option<u16>,
    pub hdop: Option<i64>,
    pub vdop: Option<i64>,
    pub pdop: Option<i64>,
    pub age_of_dgps_data: Option<i64>,
    pub dgps_id: Option<u16>,
    pub extensions: Option<ExtensionsView>,
    pub garmin_extensions: Option<GarminTrackpointExtensions>,
}

impl View for Waypoint {
    type V = WaypointView;

    open spec fn view(&self) -> WaypointView {
        WaypointView {
            lat: self.lat,
            lon: self.lon,
            ele: self.ele,
            time: self.time,
            magvar: self.magvar,
            geoid_height: self.geoid_height,
            name: text_of(self.name),
            comment: text_of(self.comment),
            description: text_of(self.description),
            source: text_of(self.source),
            links: link_views(self.links@),
            symbol: text_of(self.symbol),
            type_: text_of(self.type_),
            fix: self.fix,
            num_satellites: self.num_satellites,
            hdop: self.hdop,
            vdop: self.vdop,
            pdop: self.pdop,
            age_of_dgps_data: self.age_of_dgps_data,
            dgps_id: self.dgps_id,
            extensions: match self.extensions { Some(v) => Some(v@), None => None },
            garmin_extensions: self.garmin_extensions,
        }
    }
}

/// The values of a list of [`Waypoint`]s.
pub open spec fn waypoint_views(items: Seq<Waypoint>) -> Seq<WaypointView> {
    items.map_values(|item: Waypoint| item@)
}

/// What a file says of itself.
#[derive(Clone, Debug, PartialEq, Eq)]
pub struct Metadata {
    pub name: Option<String>,
    pub description: Option<String>,
    pub author: Option<Person>,
    pub copyright: Option<Copyright>,
    pub links: Vec<Link>,
    pub time: Option<i64>,
    pub keywords: Option<String>,
    pub bounds: Option<Bounds>,
    pub extensions: Option<Extensions>,
}

/// The value of a [`Metadata`].
pub struct MetadataView {
    pub name: Option<Seq<char>>,
    pub description: Option<Seq<char>>,
    pub author: Option<PersonView>,
    pub copyright: Option<CopyrightView>,
    pub links: Seq<LinkView>,
    pub time: Option<i64>,
    pub keywords: Option<Seq<char>>,
    pub bounds: Option<Bounds>,
    pub extensions: Option<ExtensionsView>,
}

impl View for Metadata {
    type V = MetadataView;

    open spec fn view(&self) -> MetadataView {
        MetadataView {
            name: text_of(self.name),
            description: text_of(self.description),
            author: match self.author { Some(v) => Some(v@), None => None },
            copyright: match self.copyright { Some(v) => Some(v@), None => None },
            links: link_views(self.links@),
            time: self.time,
            keywords: text_of(self.keywords),
            bounds: self.bounds,
            extensions: match self.extensions { Some(v) => Some(v@), None => None },
        }
    }
}

/// An ordered list of points that lead to a destination.
#[derive(Clone, Debug, PartialEq, Eq)]
pub struct Route {
    pub name: Option<String>,
    pub comment: Option<String>,
    pub description: Option<String>,
    pub source: Option<String>,
    pub links: Vec<Link>,
    pub number: Option<u32>,
    pub type_: Option<String>,
    pub extensions: Option<Extensions>,
    pub points: Vec<Waypoint>,
}

/// The value of a [`Route`].
pub struct RouteView {
    pub name: Option<Seq<char>>,
    pub comment: Option<Seq<char>>,
    pub description: Option<Seq<char>>,
    pub source: Option<Seq<char>>,
    pub links: Seq<LinkView>,
    pub number: Option<u32>,
    pub type_: Option<Seq<char>>,
    pub extensions: Option<ExtensionsView>,
    pub points: Seq<WaypointView>,
}

impl View for Route {
    type V = RouteView;

    open spec fn view(&self) -> RouteView {
        RouteView {
            name: text_of(self.name),
            comment: text_of(self.comment),
            description: text_of(self.description),
            source: text_of(self.source),
            links: link_views(self.links@),
            number: self.number,
            type_: text_of(self.type_),
            extensions: match self.extensions { Some(v) => Some(v@), None => None },
            points: waypoint_views(self.points@),
        }
    }
}

/// The values of a list of [`Route`]s.
pub open spec fn route_views(items: Seq<Route>) -> Seq<RouteView> {
    items.map_values(|item: Route| item@)
}

/// A run of track points that were logged without a break.
#[derive(Clone, Debug, PartialEq, Eq)]
pub struct TrackSegment {
    pub points: Vec<Waypoint>,
    pub extensions: Option<Extensions>,
}

/// The value of a [`TrackSegment`].
pub struct TrackSegmentView {
    pub points: Seq<WaypointView>,
    pub extensions: Option<ExtensionsView>,
}

impl View for TrackSegment {
    type V = TrackSegmentView;

    open spec fn view(&self) -> TrackSegmentView {
        TrackSegmentView {
            points: waypoint_views(self.points@),
            extensions: match self.extensions { Some(v) => Some(v@), None => None },
        }
    }
}

/// The values of a list of [`TrackSegment`]s.
pub open spec fn track_segment_views(items: Seq<TrackSegment>) -> Seq<TrackSegmentView> {
    items.map_values(|item: TrackSegment| item@)
}

/// An ordered list of points that describe a path.
#[derive(Clone, Debug, PartialEq, Eq)]
pub struct Track {
    pub name: Option<String>,
    pub comment: Option<String>,
    pub description: Option<String>,
    pub source: Option<String>,
    pub links: Vec<Link>,
    pub number: Option<u32>,
    pub type_: Option<String>,
    pub extensions: Option<Extensions>,
    pub segments: Vec<TrackSegment>,
}

/// The value of a [`Track`].
pub struct TrackView {
    pub name: Option<Seq<char>>,
    pub comment: Option<Seq<char>>,
    pub description: Option<Seq<char>>,
    pub source: Option<Seq<char>>,
    pub links: Seq<LinkView>,
    pub number: Option<u32>,
    pub type_: Option<Seq<char>>,
    pub extensions: Option<ExtensionsView>,
    pub segments: Seq<TrackSegmentView>,
}

impl View for Track {
    type V = TrackView;

    open spec fn view(&self) -> TrackView {
        TrackView {
            name: text_of(self.name),
            comment: text_of(self.comment),
            description: text_of(self.description),
            source: text_of(self.source),
            links: link_views(self.links@),
            number: self.number,
            type_: text_of(self.type_),
            extensions: match self.extensions { Some(v) => Some(v@), None => None },
            segments: track_segment_views(self.segments@),
        }
    }
}

/// The values of a list of [`Track`]s.
pub open spec fn track_views(items: Seq<Track>) -> Seq<TrackView> {
    items.map_values(|item: Track| item@)
}

/// A whole file: its declaration, what it says of itself, and its waypoints, routes and tracks.
#[derive(Clone, Debug, PartialEq, Eq)]
pub struct Gpx {
    pub filename: Option<String>,
    pub declaration: XmlDeclaration,
    pub version: String,
    pub creator: String,
    pub attributes: Vec<Attribute>,
    pub metadata: Metadata,
    pub waypoints: Vec<Waypoint>,
    pub routes: Vec<Route>,
    pub tracks: Vec<Track>,
    pub extensions: Option<Extensions>,
}

/// The value of a [`Gpx`].
pub struct GpxView {
    pub filename: Option<Seq<char>>,
    pub declaration: XmlDeclarationView,
    pub version: Seq<char>,
    pub creator: Seq<char>,
    pub attributes: Seq<AttributeView>,
    pub metadata: MetadataView,
    pub waypoints: Seq<WaypointView>,
    pub routes: Seq<RouteView>,
    pub tracks: Seq<TrackView>,
    pub extensions: Option<ExtensionsView>,
}

impl View for Gpx {
    type V = GpxView;

    open spec fn view(&self) -> GpxView {
        GpxView {
            filename: text_of(self.filename),
            declaration: self.declaration@,
            version: self.version@,
            creator: self.creator@,
            attributes: attribute_views(self.attributes@),
            metadata: self.metadata@,
            waypoints: waypoint_views(self.waypoints@),
            routes: route_views(self.routes@),
            tracks: track_views(self.tracks@),
            extensions: match self.extensions { Some(v) => Some(v@), None => None },
        }
    }
}

impl XmlDeclaration {
    /// The value with nothing set.
    pub open spec fn blank() -> XmlDeclarationView {
        XmlDeclarationView {
            version: Seq::empty(),
            encoding: None,
            standalone: None,
        }
    }
}

impl Default for XmlDeclaration {
    fn default() -> (blank: Self)
        ensures
            blank@ == XmlDeclaration::blank(),
    {
        let blank = XmlDeclaration {
            version: String::new(),
            encoding: None,
            standalone: None,
        };
        blank
    }
}

impl Email {
    /// The value with nothing set.
    pub open spec fn blank() -> EmailView {
        EmailView {
            id: Seq::empty(),
            domain: Seq::empty(),
        }
    }
}

impl Default for Email {
    fn default() -> (blank: Self)
        ensures
            blank@ == Email::blank(),
    {
        let blank = Email {
            id: String::new(),
            domain: String::new(),
        };
        blank
    }
}

impl Link {
    /// The value with nothing set.
    pub open spec fn blank() -> LinkView {
        LinkView {
            href: Seq::empty(),
            text: None,
            type_: None,
        }
    }
}

impl Default for Link {
    fn default() -> (blank: Self)
        ensures
            blank@ == Link::blank(),
    {
        let blank = Link {
            href: String::new(),
            text: None,
            type_: None,
        };
        blank
    }
}

impl Person {
    /// The value with nothing set.
    pub open spec fn blank() -> PersonView {
        PersonView {
            name: None,
            email: None,
            link: None,
        }
    }
}

impl Default for Person {
    fn default() -> (blank: Self)
        ensures
            blank@ == Person::blank(),
    {
        let blank = Person {
            name: None,
            email: None,
            link: None,
        };
        blank
    }
}

impl Copyright {
    /// The value with nothing set.
    pub open spec fn blank() -> CopyrightView {
        CopyrightView {
            year: None,
            license: None,
            author: Seq::empty(),
        }
    }
}

impl Default for Copyright {
    fn default() -> (blank: Self)
        ensures
            blank@ == Copyright::blank(),
    {
        let blank = Copyright {
            year: None,
            license: None,
            author: String::new(),
        };
        blank
    }
}

impl Extensions {
    /// The value with nothing set.
    pub open spec fn blank() -> ExtensionsView {
        ExtensionsView {
            raw_xml: Seq::empty(),
        }
    }
}

impl Default for Extensions {
    fn default() -> (blank: Self)
        ensures
            blank@ == Extensions::blank(),
    {
        let blank = Extensions {
            raw_xml: String::new(),
        };
        blank
    }
}

impl Waypoint {
    /// The value with nothing set.
    pub open spec fn blank() -> WaypointView {
        WaypointView {
            lat: 0,
            lon: 0,
            ele: None,
            time: None,
            magvar: None,
            geoid_height: None,
            name: None,
            comment: None,
            description: None,
            source: None,
            links: Seq::empty(),
            symbol: None,
            type_: None,
            fix: None,
            num_satellites: None,
            hdop: None,
            vdop: None,
            pdop: None,
            age_of_dgps_data: None,
            dgps_id: None,
            extensions: None,
            garmin_extensions: None,
        }
    }
}

impl Default for Waypoint {
    fn default() -> (blank: Self)
        ensures
            blank@ == Waypoint::blank(),
    {
        let blank = Waypoint {
            lat: 0,
            lon: 0,
            ele: None,
            time: None,
            magvar: None,
            geoid_height: None,
            name: None,
            comment: None,
            description: None,
            source: None,
            links: Vec::new(),
            symbol: None,
            type_: None,
            fix: None,
            num_satellites: None,
            hdop: None,
            vdop: None,
            pdop: None,
            age_of_dgps_data: None,
            dgps_id: None,
            extensions: None,
            garmin_extensions: None,
        };
        proof {
            assert(link_views(blank.links@) =~= Seq::empty());
        }
        blank
    }
}

impl Metadata {
    /// The value with nothing set.
    pub open spec fn blank() -> MetadataView {
        MetadataView {
            name: None,
            description: None,
            author: None,
            copyright: None,
            links: Seq::empty(),
            time: None,
            keywords: None,
            bounds: None,
            extensions: None,
        }
    }
}

impl Default for Metadata {
    fn default() -> (blank: Self)
        ensures
            blank@ == Metadata::blank(),
    {
        let blank = Metadata {
            name: None,
            description: None,
            author: None,
            copyright: None,
            links: Vec::new(),
            time: None,
            keywords: None,
            bounds: None,
            extensions: None,
        };
        proof {
            assert(link_views(blank.links@) =~= Seq::empty());
        }
        blank
    }
}

impl Route {
    /// The value with nothing set.
    pub open spec fn blank() -> RouteView {
        RouteView {
            name: None,
            comment: None,
            description: None,
            source: None,
            links: Seq::empty(),
            number: None,
            type_: None,
            extensions: None,
            points: Seq::empty(),
        }
    }
}

impl Default for Route {
    fn default() -> (blank: Self)
        ensures
            blank@ == Route::blank(),
    {
        let blank = Route {
            name: None,
            comment: None,
            description: None,
            source: None,
            links: Vec::new(),
            number: None,
            type_: None,
            extensions: None,
            points: Vec::new(),
        };
        proof {
            assert(link_views(blank.links@) =~= Seq::empty());
            assert(waypoint_views(blank.points@) =~= Seq::empty());
        }
        blank
    }
}

impl TrackSegment {
    /// The value with nothing set.
    pub open spec fn blank() -> TrackSegmentView {
        TrackSegmentView {
            points: Seq::empty(),
            extensions: None,
        }
    }
}

impl Default for TrackSegment {
    fn default() -> (blank: Self)
        ensures
            blank@ == TrackSegment::blank(),
    {
        let blank = TrackSegment {
            points: Vec::new(),
            extensions: None,
        };
        proof {
            assert(waypoint_views(blank.points@) =~= Seq::empty());
        }
        blank
    }
}

impl Track {
    /// The value with nothing set.
    pub open spec fn blank() -> TrackView {
        TrackView {
            name: None,
            comment: None,
            description: None,
            source: None,
            links: Seq::empty(),
            number: None,
            type_: None,
            extensions: None,
            segments: Seq::empty(),
        }
    }
}

impl Default for Track {
    fn default() -> (blank: Self)
        ensures
            blank@ == Track::blank(),
    {
        let blank = Track {
            name: None,
            comment: None,
            description: None,
            source: None,
            links: Vec::new(),
            number: None,
            type_: None,
            extensions: None,
            segments: Vec::new(),
        };
        proof {
            assert(link_views(blank.links@) =~= Seq::empty());
            assert(track_segment_views(blank.segments@) =~= Seq::empty());
        }
        blank
    }
}

impl Gpx {
    /// The value with nothing set.
    pub open spec fn blank() -> GpxView {
        GpxView {
            filename: None,
            declaration: XmlDeclaration::blank(),
            version: Seq::empty(),
            creator: Seq::empty(),
            attributes: Seq::empty(),
            metadata: Metadata::blank(),
            waypoints: Seq::empty(),
            routes: Seq::empty(),
            tracks: Seq::empty(),
            extensions: None,
        }
    }
}

impl Default for Gpx {
    fn default() -> (blank: Self)
        ensures
            blank@ == Gpx::blank(),
    {
        let blank = Gpx {
            filename: None,
            declaration: XmlDeclaration::default(),
            version: String::new(),
            creator: String::new(),
            attributes: Vec::new(),
            metadata: Metadata::default(),
            waypoints: Vec::new(),
            routes: Vec::new(),
            tracks: Vec::new(),
            extensions: None,
        };
        proof {
            assert(attribute_views(blank.attributes@) =~= Seq::empty());
            assert(waypoint_views(blank.waypoints@) =~= Seq::empty());
            assert(route_views(blank.routes@) =~= Seq::empty());
            assert(track_views(blank.tracks@) =~= Seq::empty());
        }
        blank
    }
}

} // verus!
