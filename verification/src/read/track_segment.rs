//! The `trkseg` element: a run of track points.

use vstd::prelude::*;
use crate::error::{agrees_at, Failure, GapixError};
use crate::model::{waypoint_views, TrackSegment, TrackSegmentView, Waypoint};
use crate::read::attributes::{unwanted, Attributes};
use crate::read::extensions::{parse_extensions, spec_parse_extensions};
use crate::read::waypoint::{parse_waypoint, spec_parse_waypoint};
use crate::read::xml_reader_extensions::{advance, stray, stray_event, token_at};
use crate::text::str_eq;
use crate::xml::{Document, Element, Token, XmlEvent};

verus! {

/// Is `name` the name of an element that a track segment may hold?
pub open spec fn track_segment_child(name: Seq<char>) -> bool {
    ||| name == "trkpt"@
    ||| name == "extensions"@
}

/// The track segment that the events from `pos` on complete, up to the end
/// tag named `own`, and the index after that tag. Each element that a track
/// segment may hold sets what it names, the last to come where one comes
/// twice; any other element is a failure, as is anything but text between the
/// elements.
pub open spec fn track_segment_children(
    doc: Document,
    own: Seq<char>,
    item: TrackSegmentView,
    pos: int,
) -> Result<(TrackSegmentView, int), Failure>
    decreases doc.tokens@.len() - pos,
{
    if pos < 0 || pos >= doc.tokens@.len() {
        Err(Failure::UnexpectedEof)
    } else {
        match doc.tokens@[pos].event {
            XmlEvent::Start(e) => if e.name@ == "trkpt"@ {
                match spec_parse_waypoint(e, doc, pos + 1) {
                    Ok((v, next)) => if pos < next <= doc.tokens@.len() {
                        track_segment_children(
                            doc,
                            own,
                            TrackSegmentView { points: item.points.push(v), ..item },
                            next,
                        )
                    } else {
                        Err(Failure::UnexpectedEof)
                    },
                    Err(f) => Err(f),
                }
            } else if e.name@ == "extensions"@ {
                match spec_parse_extensions(e, doc, pos + 1) {
                    Ok((v, next)) => if pos < next <= doc.tokens@.len() {
                        track_segment_children(
                            doc,
                            own,
                            TrackSegmentView { extensions: Some(v), ..item },
                            next,
                        )
                    } else {
                        Err(Failure::UnexpectedEof)
                    },
                    Err(f) => Err(f),
                }
            } else {
                Err(Failure::UnexpectedStartElement(e.name@))
            },
            XmlEvent::End(n) => if n@ == own {
                Ok((item, pos + 1))
            } else if track_segment_child(n@) {
                track_segment_children(doc, own, item, pos + 1)
            } else {
                Err(Failure::UnexpectedEndElement(n@))
            },
            other => match stray(other) {
                Some(f) => Err(f),
                None => track_segment_children(doc, own, item, pos + 1),
            },
        }
    }
}

/// The track segment that a start tag and the events after it make. The tag must
/// have no attributes.
pub open spec fn spec_parse_track_segment(
    start_element: Element,
    doc: Document,
    pos: int,
) -> Result<(TrackSegmentView, int), Failure> {
    match unwanted(start_element) {
        Some(f) => Err(f),
        None => track_segment_children(doc, start_element.name@, TrackSegment::blank(), pos),
    }
}

/// Parses a `trkseg` element whose start tag has just been read, and moves
/// `pos` past its end tag.
pub fn parse_track_segment(
    start_element: &Element,
    doc: &Document,
    pos: &mut usize,
) -> (parsed: Result<TrackSegment, GapixError>)
    ensures
        agrees_at(
            parsed,
            *final(pos) as int,
            spec_parse_track_segment(*start_element, *doc, *old(pos) as int),
        ),
        parsed is Ok ==> *old(pos) < *final(pos) <= doc.tokens@.len(),
{
    Attributes::check_is_empty(start_element)?;
    let mut item: TrackSegment = TrackSegment::default();
    let ghost whole = spec_parse_track_segment(*start_element, *doc, *old(pos) as int);
    loop
        invariant
            whole == spec_parse_track_segment(*start_element, *doc, *old(pos) as int),
            whole == track_segment_children(*doc, start_element.name@, item@, *pos as int),
            *old(pos) <= *pos,
        decreases doc.tokens@.len() - *pos,
    {
        let token: Option<&Token> = token_at(doc, *pos);
        match token {
            None => {
                return Err(GapixError::UnexpectedEof);
            },
            Some(t) => match &t.event {
                XmlEvent::Start(e) => {
                    advance(doc, pos);
                    if str_eq(e.name.as_str(), "trkpt") {
                        let child: Waypoint = parse_waypoint(e, doc, pos)?;
                        let ghost before = item.points@;
                        item.points.push(child);
                        proof {
                            assert(waypoint_views(item.points@) =~= waypoint_views(
                                before,
                            ).push(child@));
                        }
                    } else if str_eq(e.name.as_str(), "extensions") {
                        item.extensions = Some(parse_extensions(e, doc, pos)?);
                    } else {
                        return Err(GapixError::UnexpectedStartElement(e.name.clone()));
                    }
                },
                XmlEvent::End(n) => {
                    advance(doc, pos);
                    if str_eq(n.as_str(), start_element.name.as_str()) {
                        return Ok(item);
                    } else if str_eq(n.as_str(), "trkpt")
                        || str_eq(n.as_str(), "extensions") {
                        // These are expected endings, do nothing.
                    } else {
                        return Err(GapixError::UnexpectedEndElement(n.clone()));
                    }
                },
                _ => {
                    match stray_event(token) {
                        Some(e) => {
                            return Err(e);
                        },
                        None => {
                            advance(doc, pos);
                        },
                    }
                },
            },
        }
    }
}

} // verus!
