//! The `gpx` element, the root of a document.

use vstd::prelude::*;
use crate::error::{agrees_at, Failure, GapixError};
use crate::model::{
    route_views, track_views, waypoint_views, Gpx, GpxView, Route, Track, Waypoint,
};
use crate::read::attributes::{taken, Attributes};
use crate::read::extensions::{parse_extensions, spec_parse_extensions};
use crate::read::metadata::{parse_metadata, spec_parse_metadata};
use crate::read::route::{parse_route, spec_parse_route};
use crate::read::track::{parse_track, spec_parse_track};
use crate::read::waypoint::{parse_waypoint, spec_parse_waypoint};
use crate::read::xml_reader_extensions::{advance, token_at};
use crate::text::str_eq;
use crate::xml::{attribute_views, Document, Element, Token, XmlEvent};

verus! {

/// Is `name` the name of an element that the root reads?
pub open spec fn gpx_child(name: Seq<char>) -> bool {
    name == "metadata"@ || name == "wpt"@ || name == "rte"@ || name == "trk"@ || name
        == "extensions"@
}

/// The file that the events from `pos` on complete, up to the end tag named
/// `own`, and the index after that tag. The elements `metadata` and
/// `extensions` set what they name; each `wpt`, `rte` and `trk` adds a
/// waypoint, a route or a track. Any other element is a failure; whatever
/// else stands between the elements is passed over; the document must not
/// end before the end tag.
pub open spec fn gpx_children(doc: Document, own: Seq<char>, item: GpxView, pos: int) -> Result<
    (GpxView, int),
    Failure,
>
    decreases doc.tokens@.len() - pos,
{
    if pos < 0 || pos >= doc.tokens@.len() {
        Err(Failure::UnexpectedEof)
    } else {
        match doc.tokens@[pos].event {
            XmlEvent::Start(e) => if e.name@ == "metadata"@ {
                match spec_parse_metadata(e, doc, pos + 1) {
                    Ok((v, next)) => if pos < next <= doc.tokens@.len() {
                        gpx_children(doc, own, GpxView { metadata: v, ..item }, next)
                    } else {
                        Err(Failure::UnexpectedEof)
                    },
                    Err(f) => Err(f),
                }
            } else if e.name@ == "wpt"@ {
                match spec_parse_waypoint(e, doc, pos + 1) {
                    Ok((v, next)) => if pos < next <= doc.tokens@.len() {
                        gpx_children(
                            doc,
                            own,
                            GpxView { waypoints: item.waypoints.push(v), ..item },
                            next,
                        )
                    } else {
                        Err(Failure::UnexpectedEof)
                    },
                    Err(f) => Err(f),
                }
            } else if e.name@ == "rte"@ {
                match spec_parse_route(e, doc, pos + 1) {
                    Ok((v, next)) => if pos < next <= doc.tokens@.len() {
                        gpx_children(
                            doc,
                            own,
                            GpxView { routes: item.routes.push(v), ..item },
                            next,
                        )
                    } else {
                        Err(Failure::UnexpectedEof)
                    },
                    Err(f) => Err(f),
                }
            } else if e.name@ == "trk"@ {
                match spec_parse_track(e, doc, pos + 1) {
                    Ok((v, next)) => if pos < next <= doc.tokens@.len() {
                        gpx_children(
                            doc,
                            own,
                            GpxView { tracks: item.tracks.push(v), ..item },
                            next,
                        )
                    } else {
                        Err(Failure::UnexpectedEof)
                    },
                    Err(f) => Err(f),
                }
            } else if e.name@ == "extensions"@ {
                match spec_parse_extensions(e, doc, pos + 1) {
                    Ok((v, next)) => if pos < next <= doc.tokens@.len() {
                        gpx_children(doc, own, GpxView { extensions: Some(v), ..item }, next)
                    } else {
                        Err(Failure::UnexpectedEof)
                    },
                    Err(f) => Err(f),
                }
            } else {
                Err(Failure::UnexpectedStartElement(e.name@))
            },
            XmlEvent::End(n) => if n@ == own {
                Ok((item, pos + 1))
            } else if gpx_child(n@) {
                gpx_children(doc, own, item, pos + 1)
            } else {
                Err(Failure::UnexpectedEndElement(n@))
            },
            XmlEvent::Eof => Err(Failure::UnexpectedEof),
            XmlEvent::Malformed(m) => Err(Failure::XmlError(m@)),
            _ => gpx_children(doc, own, item, pos + 1),
        }
    }
}

/// The file that the start tag of the root and the events after it make.
/// The tag must have the attributes `creator` and `version`; whatever other
/// attributes it has are kept.
pub open spec fn spec_parse_gpx(start_element: Element, doc: Document, pos: int) -> Result<
    (GpxView, int),
    Failure,
> {
    match start_element.fault {
        Some(m) => Err(Failure::XmlError(m@)),
        None => match taken(attribute_views(start_element.attributes@), "creator"@) {
            Err(f) => Err(f),
            Ok((creator, others)) => match taken(others, "version"@) {
                Err(f) => Err(f),
                Ok((version, rest)) => gpx_children(
                    doc,
                    start_element.name@,
                    GpxView { creator, version, attributes: rest, ..Gpx::blank() },
                    pos,
                ),
            },
        },
    }
}

/// Parses the `gpx` element itself, whose start tag has just been read, and
/// moves `pos` past its end tag.
pub fn parse_gpx(start_element: &Element, doc: &Document, pos: &mut usize) -> (parsed: Result<
    Gpx,
    GapixError,
>)
    ensures
        agrees_at(
            parsed,
            *final(pos) as int,
            spec_parse_gpx(*start_element, *doc, *old(pos) as int),
        ),
        parsed is Ok ==> *old(pos) < *final(pos) <= doc.tokens@.len(),
{
    let mut attributes: Attributes = Attributes::new(start_element)?;
    let creator: String = attributes.get("creator")?;
    let version: String = attributes.get("version")?;
    let mut item: Gpx = Gpx::default();
    item.creator = creator;
    item.version = version;
    item.attributes = attributes.into_inner();
    let ghost whole = spec_parse_gpx(*start_element, *doc, *old(pos) as int);
    loop
        invariant
            whole == spec_parse_gpx(*start_element, *doc, *old(pos) as int),
            whole == gpx_children(*doc, start_element.name@, item@, *pos as int),
            *old(pos) <= *pos,
        decreases doc.tokens@.len() - *pos,
    {
        let token: Option<&Token> = token_at(doc, *pos);
        match token {
            None => {
                return Err(GapixError::UnexpectedEof);
            },
            Some(t) => {
                advance(doc, pos);
                match &t.event {
                    XmlEvent::Start(e) => {
                        if str_eq(e.name.as_str(), "metadata") {
                            item.metadata = parse_metadata(e, doc, pos)?;
                        } else if str_eq(e.name.as_str(), "wpt") {
                            let child: Waypoint = parse_waypoint(e, doc, pos)?;
                            let ghost before = item.waypoints@;
                            item.waypoints.push(child);
                            proof {
                                assert(waypoint_views(item.waypoints@) =~= waypoint_views(
                                    before,
                                ).push(child@));
                            }
                        } else if str_eq(e.name.as_str(), "rte") {
                            let child: Route = parse_route(e, doc, pos)?;
                            let ghost before = item.routes@;
                            item.routes.push(child);
                            proof {
                                assert(route_views(item.routes@) =~= route_views(before).push(
                                    child@,
                                ));
                            }
                        } else if str_eq(e.name.as_str(), "trk") {
                            let child: Track = parse_track(e, doc, pos)?;
                            let ghost before = item.tracks@;
                            item.tracks.push(child);
                            proof {
                                assert(track_views(item.tracks@) =~= track_views(before).push(
                                    child@,
                                ));
                            }
                        } else if str_eq(e.name.as_str(), "extensions") {
                            item.extensions = Some(parse_extensions(e, doc, pos)?);
                        } else {
                            return Err(GapixError::UnexpectedStartElement(e.name.clone()));
                        }
                    },
                    XmlEvent::End(n) => {
                        if str_eq(n.as_str(), start_element.name.as_str()) {
                            return Ok(item);
                        } else if str_eq(n.as_str(), "metadata") || str_eq(n.as_str(), "wpt")
                            || str_eq(n.as_str(), "rte") || str_eq(n.as_str(), "trk") || str_eq(
                            n.as_str(),
                            "extensions",
                        ) {
                            // These are expected endings, do nothing.
                        } else {
                            return Err(GapixError::UnexpectedEndElement(n.clone()));
                        }
                    },
                    XmlEvent::Eof => {
                        return Err(GapixError::UnexpectedEof);
                    },
                    XmlEvent::Malformed(m) => {
                        return Err(GapixError::XmlError(m.clone()));
                    },
                    _ => {},
                }
            },
        }
    }
}

} // verus!
