//! The elements `wpt`, `rtept` and `trkpt`: a point.

use vstd::prelude::*;
use crate::error::{agrees_at, Failure, GapixError};
use crate::model::{
    link_views, validate_degrees, validate_dgps_station_id, FixType, Link, Waypoint, WaypointView,
    FULL_TURN, MAX_DGPS_STATION_ID,
};
use crate::point::{latitude_in_range, longitude_in_range, MAX_LATITUDE, MAX_LONGITUDE};
use crate::read::attributes::{leftover, Attributes};
use crate::read::bounds::{taken_decimal, DEGREE_PLACES};
use crate::read::extensions::{parse_extensions, spec_parse_extensions};
use crate::read::link::{parse_link, spec_parse_link};
use crate::read::trackpoint_extensions::{
    parse_garmin_trackpoint_extensions, spec_parse_garmin_trackpoint_extensions,
};
use crate::read::xml_reader_extensions::{
    advance, inner_decimal, inner_integer, inner_text, inner_time, read_inner_as_decimal,
    read_inner_as_integer, read_inner_as_string, read_inner_as_time, stray, stray_event, token_at,
};
use crate::text::str_eq;
use crate::xml::{attribute_views, Document, Element, Token, XmlEvent};

verus! {

/// Is `name` the name of an element that a point may hold?
pub open spec fn waypoint_child(name: Seq<char>) -> bool {
    ||| name == "ele"@
    ||| name == "time"@
    ||| name == "magvar"@
    ||| name == "geoidheight"@
    ||| name == "name"@
    ||| name == "cmt"@
    ||| name == "desc"@
    ||| name == "src"@
    ||| name == "link"@
    ||| name == "sym"@
    ||| name == "type"@
    ||| name == "fix"@
    ||| name == "sat"@
    ||| name == "hdop"@
    ||| name == "vdop"@
    ||| name == "pdop"@
    ||| name == "ageofdgpsdata"@
    ||| name == "dgpsid"@
    ||| name == "extensions"@
}

/// The point that the events from `pos` on complete, up to the end tag named
/// `own`, and the index after that tag. Each element that a point may hold
/// sets what it names, the last to come where one comes twice; any other
/// element is a failure, as is anything but text between the elements.
pub open spec fn waypoint_children(
    doc: Document,
    own: Seq<char>,
    item: WaypointView,
    pos: int,
) -> Result<(WaypointView, int), Failure>
    decreases doc.tokens@.len() - pos,
{
    if pos < 0 || pos >= doc.tokens@.len() {
        Err(Failure::UnexpectedEof)
    } else {
        match doc.tokens@[pos].event {
            XmlEvent::Start(e) => if e.name@ == "ele"@ {
                match inner_decimal(doc.tokens@, pos + 1, 3) {
                    Ok(v) => waypoint_children(
                        doc,
                        own,
                        WaypointView { ele: Some(v), ..item },
                        pos + 2,
                    ),
                    Err(f) => Err(f),
                }
            } else if e.name@ == "time"@ {
                match inner_time(doc.tokens@, pos + 1) {
                    Ok(v) => waypoint_children(
                        doc,
                        own,
                        WaypointView { time: Some(v), ..item },
                        pos + 2,
                    ),
                    Err(f) => Err(f),
                }
            } else if e.name@ == "magvar"@ {
                match inner_decimal(doc.tokens@, pos + 1, 3) {
                    Ok(v) => if 0 <= v < FULL_TURN {
                        waypoint_children(
                            doc,
                            own,
                            WaypointView { magvar: Some(v), ..item },
                            pos + 2,
                        )
                    } else {
                        Err(Failure::InvalidDegrees(v))
                    },
                    Err(f) => Err(f),
                }
            } else if e.name@ == "geoidheight"@ {
                match inner_decimal(doc.tokens@, pos + 1, 3) {
                    Ok(v) => waypoint_children(
                        doc,
                        own,
                        WaypointView { geoid_height: Some(v), ..item },
                        pos + 2,
                    ),
                    Err(f) => Err(f),
                }
            } else if e.name@ == "name"@ {
                match inner_text(doc.tokens@, pos + 1) {
                    Ok(t) => waypoint_children(
                        doc,
                        own,
                        WaypointView { name: Some(t), ..item },
                        pos + 2,
                    ),
                    Err(f) => Err(f),
                }
            } else if e.name@ == "cmt"@ {
                match inner_text(doc.tokens@, pos + 1) {
                    Ok(t) => waypoint_children(
                        doc,
                        own,
                        WaypointView { comment: Some(t), ..item },
                        pos + 2,
                    ),
                    Err(f) => Err(f),
                }
            } else if e.name@ == "desc"@ {
                match inner_text(doc.tokens@, pos + 1) {
                    Ok(t) => waypoint_children(
                        doc,
                        own,
                        WaypointView { description: Some(t), ..item },
                        pos + 2,
                    ),
                    Err(f) => Err(f),
                }
            } else if e.name@ == "src"@ {
                match inner_text(doc.tokens@, pos + 1) {
                    Ok(t) => waypoint_children(
                        doc,
                        own,
                        WaypointView { source: Some(t), ..item },
                        pos + 2,
                    ),
                    Err(f) => Err(f),
                }
            } else if e.name@ == "link"@ {
                match spec_parse_link(e, doc.tokens@, pos + 1) {
                    Ok((v, next)) => if pos < next <= doc.tokens@.len() {
                        waypoint_children(
                            doc,
                            own,
                            WaypointView { links: item.links.push(v), ..item },
                            next,
                        )
                    } else {
                        Err(Failure::UnexpectedEof)
                    },
                    Err(f) => Err(f),
                }
            } else if e.name@ == "sym"@ {
                match inner_text(doc.tokens@, pos + 1) {
                    Ok(t) => waypoint_children(
                        doc,
                        own,
                        WaypointView { symbol: Some(t), ..item },
                        pos + 2,
                    ),
                    Err(f) => Err(f),
                }
            } else if e.name@ == "type"@ {
                match inner_text(doc.tokens@, pos + 1) {
                    Ok(t) => waypoint_children(
                        doc,
                        own,
                        WaypointView { type_: Some(t), ..item },
                        pos + 2,
                    ),
                    Err(f) => Err(f),
                }
            } else if e.name@ == "fix"@ {
                match inner_text(doc.tokens@, pos + 1) {
                    Ok(t) => match FixType::named(t) {
                        Some(fix) => waypoint_children(
                            doc,
                            own,
                            WaypointView { fix: Some(fix), ..item },
                            pos + 2,
                        ),
                        None => Err(Failure::InvalidFixType(t)),
                    },
                    Err(f) => Err(f),
                }
            } else if e.name@ == "sat"@ {
                match inner_integer(doc.tokens@, pos + 1, 0, 65535) {
                    Ok(v) => waypoint_children(
                        doc,
                        own,
                        WaypointView { num_satellites: Some(v as u16), ..item },
                        pos + 2,
                    ),
                    Err(f) => Err(f),
                }
            } else if e.name@ == "hdop"@ {
                match inner_decimal(doc.tokens@, pos + 1, 3) {
                    Ok(v) => waypoint_children(
                        doc,
                        own,
                        WaypointView { hdop: Some(v), ..item },
                        pos + 2,
                    ),
                    Err(f) => Err(f),
                }
            } else if e.name@ == "vdop"@ {
                match inner_decimal(doc.tokens@, pos + 1, 3) {
                    Ok(v) => waypoint_children(
                        doc,
                        own,
                        WaypointView { vdop: Some(v), ..item },
                        pos + 2,
                    ),
                    Err(f) => Err(f),
                }
            } else if e.name@ == "pdop"@ {
                match inner_decimal(doc.tokens@, pos + 1, 3) {
                    Ok(v) => waypoint_children(
                        doc,
                        own,
                        WaypointView { pdop: Some(v), ..item },
                        pos + 2,
                    ),
                    Err(f) => Err(f),
                }
            } else if e.name@ == "ageofdgpsdata"@ {
                match inner_decimal(doc.tokens@, pos + 1, 3) {
                    Ok(v) => waypoint_children(
                        doc,
                        own,
                        WaypointView { age_of_dgps_data: Some(v), ..item },
                        pos + 2,
                    ),
                    Err(f) => Err(f),
                }
            } else if e.name@ == "dgpsid"@ {
                match inner_integer(doc.tokens@, pos + 1, i64::MIN, i64::MAX) {
                    Ok(v) => if 0 <= v <= MAX_DGPS_STATION_ID {
                        waypoint_children(
                            doc,
                            own,
                            WaypointView { dgps_id: Some(v as u16), ..item },
                            pos + 2,
                        )
                    } else {
                        Err(Failure::InvalidDGPSStationId(v))
                    },
                    Err(f) => Err(f),
                }
            } else if e.name@ == "extensions"@ {
                match spec_parse_extensions(e, doc, pos + 1) {
                    Ok((v, next)) => if next <= pos + 1 || next > doc.tokens@.len() {
                        Err(Failure::UnexpectedEof)
                    } else if own == "trkpt"@ {
                        match spec_parse_garmin_trackpoint_extensions(
                            doc.tokens@,
                            pos + 1,
                            next - 1,
                        ) {
                            Ok(g) => waypoint_children(
                                doc,
                                own,
                                WaypointView { extensions: Some(v), garmin_extensions: g, ..item },
                                next,
                            ),
                            Err(f) => Err(f),
                        }
                    } else {
                        waypoint_children(
                            doc,
                            own,
                            WaypointView { extensions: Some(v), ..item },
                            next,
                        )
                    },
                    Err(f) => Err(f),
                }
            } else {
                Err(Failure::UnexpectedStartElement(e.name@))
            },
            XmlEvent::End(n) => if n@ == own {
                Ok((item, pos + 1))
            } else if waypoint_child(n@) {
                waypoint_children(doc, own, item, pos + 1)
            } else {
                Err(Failure::UnexpectedEndElement(n@))
            },
            other => match stray(other) {
                Some(f) => Err(f),
                None => waypoint_children(doc, own, item, pos + 1),
            },
        }
    }
}

/// The first of a latitude and a longitude that is out of range, as the
/// failure it makes.
pub open spec fn position_fault(lat: i64, lon: i64) -> Option<Failure> {
    if !latitude_in_range(lat) {
        Some(Failure::InvalidLatitude(lat))
    } else if !longitude_in_range(lon) {
        Some(Failure::InvalidLongitude(lon))
    } else {
        None
    }
}

/// The point that a start tag and the events after it make. The tag must
/// have the attributes `lat` and `lon`, a latitude and a longitude in range,
/// and no others.
pub open spec fn spec_parse_waypoint(start_element: Element, doc: Document, pos: int) -> Result<
    (WaypointView, int),
    Failure,
> {
    let places = DEGREE_PLACES as nat;
    match start_element.fault {
        Some(m) => Err(Failure::XmlError(m@)),
        None => match taken_decimal(attribute_views(start_element.attributes@), "lat"@, places) {
            Err(f) => Err(f),
            Ok((lat, others)) => match taken_decimal(others, "lon"@, places) {
                Err(f) => Err(f),
                Ok((lon, rest)) => match leftover(start_element.name@, rest) {
                    Some(f) => Err(f),
                    None => match position_fault(lat, lon) {
                        Some(f) => Err(f),
                        None => waypoint_children(
                            doc,
                            start_element.name@,
                            WaypointView { lat, lon, ..Waypoint::blank() },
                            pos,
                        ),
                    },
                },
            },
        },
    }
}

/// Parses a waypoint, which can appear under the `gpx` tag, as part of a
/// route or as part of a track, whose start tag has just been read, and moves
/// `pos` past its end tag.
#[verifier::rlimit(30)]
pub fn parse_waypoint(
    start_element: &Element,
    doc: &Document,
    pos: &mut usize,
) -> (parsed: Result<Waypoint, GapixError>)
    ensures
        agrees_at(
            parsed,
            *final(pos) as int,
            spec_parse_waypoint(*start_element, *doc, *old(pos) as int),
        ),
        parsed is Ok ==> *old(pos) < *final(pos) <= doc.tokens@.len(),
{
    let mut attributes: Attributes = Attributes::new(start_element)?;
    let lat: i64 = attributes.get_decimal("lat", DEGREE_PLACES)?;
    let lon: i64 = attributes.get_decimal("lon", DEGREE_PLACES)?;
    attributes.check_is_empty_now()?;
    let mut item: Waypoint = with_lat_lon(lat, lon)?;
    let ghost whole = spec_parse_waypoint(*start_element, *doc, *old(pos) as int);
    loop
        invariant
            whole == spec_parse_waypoint(*start_element, *doc, *old(pos) as int),
            whole == waypoint_children(*doc, start_element.name@, item@, *pos as int),
            *old(pos) <= *pos,
        decreases doc.tokens@.len() - *pos,
    {
        let token: Option<&Token> = token_at(doc, *pos);
        match token {
            None => {
                return Err(GapixError::UnexpectedEof);
            },
            Some(t) => match &t.event {
                XmlEvent::Start(e) => {
                    advance(doc, pos);
                    if str_eq(e.name.as_str(), "ele") {
                        item.ele = Some(read_inner_as_decimal(doc, pos, 3)?);
                    } else if str_eq(e.name.as_str(), "time") {
                        item.time = Some(read_inner_as_time(doc, pos)?);
                    } else if str_eq(e.name.as_str(), "magvar") {
                        let degrees: i64 = validate_degrees(read_inner_as_decimal(doc, pos, 3)?)?;
                        item.magvar = Some(degrees);
                    } else if str_eq(e.name.as_str(), "geoidheight") {
                        item.geoid_height = Some(read_inner_as_decimal(doc, pos, 3)?);
                    } else if str_eq(e.name.as_str(), "name") {
                        item.name = Some(read_inner_as_string(doc, pos)?);
                    } else if str_eq(e.name.as_str(), "cmt") {
                        item.comment = Some(read_inner_as_string(doc, pos)?);
                    } else if str_eq(e.name.as_str(), "desc") {
                        item.description = Some(read_inner_as_string(doc, pos)?);
                    } else if str_eq(e.name.as_str(), "src") {
                        item.source = Some(read_inner_as_string(doc, pos)?);
                    } else if str_eq(e.name.as_str(), "link") {
                        let child: Link = parse_link(e, doc, pos)?;
                        let ghost before = item.links@;
                        item.links.push(child);
                        proof {
                            assert(link_views(item.links@) =~= link_views(
                                before,
                            ).push(child@));
                        }
                    } else if str_eq(e.name.as_str(), "sym") {
                        item.symbol = Some(read_inner_as_string(doc, pos)?);
                    } else if str_eq(e.name.as_str(), "type") {
                        item.type_ = Some(read_inner_as_string(doc, pos)?);
                    } else if str_eq(e.name.as_str(), "fix") {
                        let word: String = read_inner_as_string(doc, pos)?;
                        item.fix = Some(FixType::from_text(word.as_str())?);
                    } else if str_eq(e.name.as_str(), "sat") {
                        let number: i64 = read_inner_as_integer(doc, pos, 0, 65535)?;
                        item.num_satellites = Some(number as u16);
                    } else if str_eq(e.name.as_str(), "hdop") {
                        item.hdop = Some(read_inner_as_decimal(doc, pos, 3)?);
                    } else if str_eq(e.name.as_str(), "vdop") {
                        item.vdop = Some(read_inner_as_decimal(doc, pos, 3)?);
                    } else if str_eq(e.name.as_str(), "pdop") {
                        item.pdop = Some(read_inner_as_decimal(doc, pos, 3)?);
                    } else if str_eq(e.name.as_str(), "ageofdgpsdata") {
                        item.age_of_dgps_data = Some(read_inner_as_decimal(doc, pos, 3)?);
                    } else if str_eq(e.name.as_str(), "dgpsid") {
                        let id: u16 = validate_dgps_station_id(
                            read_inner_as_integer(doc, pos, i64::MIN, i64::MAX)?,
                        )?;
                        item.dgps_id = Some(id);
                    } else if str_eq(e.name.as_str(), "extensions") {
                        let inner: usize = *pos;
                        item.extensions = Some(parse_extensions(e, doc, pos)?);
                        if str_eq(start_element.name.as_str(), "trkpt") {
                            // Readings of a device only exist on the points of tracks, and even
                            // there they are optional.
                            item.garmin_extensions = parse_garmin_trackpoint_extensions(
                                doc,
                                inner,
                                *pos - 1,
                            )?;
                        }
                    } else {
                        return Err(GapixError::UnexpectedStartElement(e.name.clone()));
                    }
                },
                XmlEvent::End(n) => {
                    advance(doc, pos);
                    if str_eq(n.as_str(), start_element.name.as_str()) {
                        return Ok(item);
                    } else if str_eq(n.as_str(), "ele")
                        || str_eq(n.as_str(), "time")
                        || str_eq(n.as_str(), "magvar")
                        || str_eq(n.as_str(), "geoidheight")
                        || str_eq(n.as_str(), "name")
                        || str_eq(n.as_str(), "cmt")
                        || str_eq(n.as_str(), "desc")
                        || str_eq(n.as_str(), "src")
                        || str_eq(n.as_str(), "link")
                        || str_eq(n.as_str(), "sym")
                        || str_eq(n.as_str(), "type")
                        || str_eq(n.as_str(), "fix")
                        || str_eq(n.as_str(), "sat")
                        || str_eq(n.as_str(), "hdop")
                        || str_eq(n.as_str(), "vdop")
                        || str_eq(n.as_str(), "pdop")
                        || str_eq(n.as_str(), "ageofdgpsdata")
                        || str_eq(n.as_str(), "dgpsid")
                        || str_eq(n.as_str(), "extensions") {
                        // These are expected endings, do nothing.
                    } else {
                        return Err(GapixError::UnexpectedEndElement(n.clone()));
                    }
                },
                _ => {
                    match stray_event(token) {
                        Some(e) => {
                            return Err(e);
                        },
                        None => {
                            advance(doc, pos);
                        },
                    }
                },
            },
        }
    }
}

/// A point at the given latitude and longitude, which must be in range,
/// with nothing else known of it.
pub fn with_lat_lon(lat: i64, lon: i64) -> (made: Result<Waypoint, GapixError>)
    ensures
        made matches Ok(w) ==> position_fault(lat, lon) is None && w@ == (WaypointView {
            lat,
            lon,
            ..Waypoint::blank()
        }),
        made matches Err(e) ==> position_fault(lat, lon) == Some(e@),
{
    if lat < -MAX_LATITUDE || lat > MAX_LATITUDE {
        return Err(GapixError::InvalidLatitude(lat));
    }
    if lon < -MAX_LONGITUDE || lon > MAX_LONGITUDE {
        return Err(GapixError::InvalidLongitude(lon));
    }
    let mut point: Waypoint = Waypoint::default();
    point.lat = lat;
    point.lon = lon;
    Ok(point)
}

} // verus!
