//! The `trk` element: a track and its segments.

use vstd::prelude::*;
use crate::error::{agrees_at, Failure, GapixError};
use crate::model::{link_views, track_segment_views, Link, Track, TrackSegment, TrackView};
use crate::read::attributes::{unwanted, Attributes};
use crate::read::extensions::{parse_extensions, spec_parse_extensions};
use crate::read::link::{parse_link, spec_parse_link};
use crate::read::track_segment::{parse_track_segment, spec_parse_track_segment};
use crate::read::xml_reader_extensions::{
    advance, inner_integer, inner_text, read_inner_as_integer, read_inner_as_string, stray,
    stray_event, token_at,
};
use crate::text::str_eq;
use crate::xml::{Document, Element, Token, XmlEvent};

verus! {

/// Is `name` the name of an element that a track may hold?
pub open spec fn track_child(name: Seq<char>) -> bool {
    ||| name == "name"@
    ||| name == "cmt"@
    ||| name == "desc"@
    ||| name == "src"@
    ||| name == "link"@
    ||| name == "number"@
    ||| name == "type"@
    ||| name == "extensions"@
    ||| name == "trkseg"@
}

/// The track that the events from `pos` on complete, up to the end tag named
/// `own`, and the index after that tag. Each element that a track may hold
/// sets what it names, the last to come where one comes twice; any other
/// element is a failure, as is anything but text between the elements.
pub open spec fn track_children(
    doc: Document,
    own: Seq<char>,
    item: TrackView,
    pos: int,
) -> Result<(TrackView, int), Failure>
    decreases doc.tokens@.len() - pos,
{
    if pos < 0 || pos >= doc.tokens@.len() {
        Err(Failure::UnexpectedEof)
    } else {
        match doc.tokens@[pos].event {
            XmlEvent::Start(e) => if e.name@ == "name"@ {
                match inner_text(doc.tokens@, pos + 1) {
                    Ok(t) => track_children(doc, own, TrackView { name: Some(t), ..item }, pos + 2),
                    Err(f) => Err(f),
                }
            } else if e.name@ == "cmt"@ {
                match inner_text(doc.tokens@, pos + 1) {
                    Ok(t) => track_children(
                        doc,
                        own,
                        TrackView { comment: Some(t), ..item },
                        pos + 2,
                    ),
                    Err(f) => Err(f),
                }
            } else if e.name@ == "desc"@ {
                match inner_text(doc.tokens@, pos + 1) {
                    Ok(t) => track_children(
                        doc,
                        own,
                        TrackView { description: Some(t), ..item },
                        pos + 2,
                    ),
                    Err(f) => Err(f),
                }
            } else if e.name@ == "src"@ {
                match inner_text(doc.tokens@, pos + 1) {
                    Ok(t) => track_children(
                        doc,
                        own,
                        TrackView { source: Some(t), ..item },
                        pos + 2,
                    ),
                    Err(f) => Err(f),
                }
            } else if e.name@ == "link"@ {
                match spec_parse_link(e, doc.tokens@, pos + 1) {
                    Ok((v, next)) => if pos < next <= doc.tokens@.len() {
                        track_children(
                            doc,
                            own,
                            TrackView { links: item.links.push(v), ..item },
                            next,
                        )
                    } else {
                        Err(Failure::UnexpectedEof)
                    },
                    Err(f) => Err(f),
                }
            } else if e.name@ == "number"@ {
                match inner_integer(doc.tokens@, pos + 1, 0, 4294967295) {
                    Ok(v) => track_children(
                        doc,
                        own,
                        TrackView { number: Some(v as u32), ..item },
                        pos + 2,
                    ),
                    Err(f) => Err(f),
                }
            } else if e.name@ == "type"@ {
                match inner_text(doc.tokens@, pos + 1) {
                    Ok(t) => track_children(
                        doc,
                        own,
                        TrackView { type_: Some(t), ..item },
                        pos + 2,
                    ),
                    Err(f) => Err(f),
                }
            } else if e.name@ == "extensions"@ {
                match spec_parse_extensions(e, doc, pos + 1) {
                    Ok((v, next)) => if pos < next <= doc.tokens@.len() {
                        track_children(doc, own, TrackView { extensions: Some(v), ..item }, next)
                    } else {
                        Err(Failure::UnexpectedEof)
                    },
                    Err(f) => Err(f),
                }
            } else if e.name@ == "trkseg"@ {
                match spec_parse_track_segment(e, doc, pos + 1) {
                    Ok((v, next)) => if pos < next <= doc.tokens@.len() {
                        track_children(
                            doc,
                            own,
                            TrackView { segments: item.segments.push(v), ..item },
                            next,
                        )
                    } else {
                        Err(Failure::UnexpectedEof)
                    },
                    Err(f) => Err(f),
                }
            } else {
                Err(Failure::UnexpectedStartElement(e.name@))
            },
            XmlEvent::End(n) => if n@ == own {
                Ok((item, pos + 1))
            } else if track_child(n@) {
                track_children(doc, own, item, pos + 1)
            } else {
                Err(Failure::UnexpectedEndElement(n@))
            },
            other => match stray(other) {
                Some(f) => Err(f),
                None => track_children(doc, own, item, pos + 1),
            },
        }
    }
}

/// The track that a start tag and the events after it make. The tag must
/// have no attributes.
pub open spec fn spec_parse_track(
    start_element: Element,
    doc: Document,
    pos: int,
) -> Result<(TrackView, int), Failure> {
    match unwanted(start_element) {
        Some(f) => Err(f),
        None => track_children(doc, start_element.name@, Track::blank(), pos),
    }
}

/// Parses a `trk` element whose start tag has just been read, and moves `pos`
/// past its end tag.
pub fn parse_track(
    start_element: &Element,
    doc: &Document,
    pos: &mut usize,
) -> (parsed: Result<Track, GapixError>)
    ensures
        agrees_at(
            parsed,
            *final(pos) as int,
            spec_parse_track(*start_element, *doc, *old(pos) as int),
        ),
        parsed is Ok ==> *old(pos) < *final(pos) <= doc.tokens@.len(),
{
    Attributes::check_is_empty(start_element)?;
    let mut item: Track = Track::default();
    let ghost whole = spec_parse_track(*start_element, *doc, *old(pos) as int);
    loop
        invariant
            whole == spec_parse_track(*start_element, *doc, *old(pos) as int),
            whole == track_children(*doc, start_element.name@, item@, *pos as int),
            *old(pos) <= *pos,
        decreases doc.tokens@.len() - *pos,
    {
        let token: Option<&Token> = token_at(doc, *pos);
        match token {
            None => {
                return Err(GapixError::UnexpectedEof);
            },
            Some(t) => match &t.event {
                XmlEvent::Start(e) => {
                    advance(doc, pos);
                    if str_eq(e.name.as_str(), "name") {
                        item.name = Some(read_inner_as_string(doc, pos)?);
                    } else if str_eq(e.name.as_str(), "cmt") {
                        item.comment = Some(read_inner_as_string(doc, pos)?);
                    } else if str_eq(e.name.as_str(), "desc") {
                        item.description = Some(read_inner_as_string(doc, pos)?);
                    } else if str_eq(e.name.as_str(), "src") {
                        item.source = Some(read_inner_as_string(doc, pos)?);
                    } else if str_eq(e.name.as_str(), "link") {
                        let child: Link = parse_link(e, doc, pos)?;
                        let ghost before = item.links@;
                        item.links.push(child);
                        proof {
                            assert(link_views(item.links@) =~= link_views(
                                before,
                            ).push(child@));
                        }
                    } else if str_eq(e.name.as_str(), "number") {
                        let number: i64 = read_inner_as_integer(doc, pos, 0, 4294967295)?;
                        item.number = Some(number as u32);
                    } else if str_eq(e.name.as_str(), "type") {
                        item.type_ = Some(read_inner_as_string(doc, pos)?);
                    } else if str_eq(e.name.as_str(), "extensions") {
                        item.extensions = Some(parse_extensions(e, doc, pos)?);
                    } else if str_eq(e.name.as_str(), "trkseg") {
                        let child: TrackSegment = parse_track_segment(e, doc, pos)?;
                        let ghost before = item.segments@;
                        item.segments.push(child);
                        proof {
                            assert(track_segment_views(item.segments@) =~= track_segment_views(
                                before,
                            ).push(child@));
                        }
                    } else {
                        return Err(GapixError::UnexpectedStartElement(e.name.clone()));
                    }
                },
                XmlEvent::End(n) => {
                    advance(doc, pos);
                    if str_eq(n.as_str(), start_element.name.as_str()) {
                        return Ok(item);
                    } else if str_eq(n.as_str(), "name")
                        || str_eq(n.as_str(), "cmt")
                        || str_eq(n.as_str(), "desc")
                        || str_eq(n.as_str(), "src")
                        || str_eq(n.as_str(), "link")
                        || str_eq(n.as_str(), "number")
                        || str_eq(n.as_str(), "type")
                        || str_eq(n.as_str(), "extensions")
                        || str_eq(n.as_str(), "trkseg") {
                        // These are expected endings, do nothing.
                    } else {
                        return Err(GapixError::UnexpectedEndElement(n.clone()));
                    }
                },
                _ => {
                    match stray_event(token) {
                        Some(e) => {
                            return Err(e);
                        },
                        None => {
                            advance(doc, pos);
                        },
                    }
                },
            },
        }
    }
}

} // verus!
