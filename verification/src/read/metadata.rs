//! The `metadata` element: what a file says of itself.

use vstd::prelude::*;
use crate::error::{agrees_at, Failure, GapixError};
use crate::model::{link_views, Link, Metadata, MetadataView};
use crate::read::attributes::{unwanted, Attributes};
use crate::read::bounds::{parse_bounds, spec_parse_bounds};
use crate::read::copyright::{parse_copyright, spec_parse_copyright};
use crate::read::extensions::{parse_extensions, spec_parse_extensions};
use crate::read::link::{parse_link, spec_parse_link};
use crate::read::person::{parse_person, spec_parse_person};
use crate::read::xml_reader_extensions::{
    advance, inner_text, inner_time, read_inner_as_string, read_inner_as_time, stray, stray_event,
    token_at,
};
use crate::text::str_eq;
use crate::xml::{Document, Element, Token, XmlEvent};

verus! {

/// Is `name` the name of an element that the metadata may hold?
pub open spec fn metadata_child(name: Seq<char>) -> bool {
    ||| name == "name"@
    ||| name == "desc"@
    ||| name == "author"@
    ||| name == "copyright"@
    ||| name == "link"@
    ||| name == "time"@
    ||| name == "keywords"@
    ||| name == "bounds"@
    ||| name == "extensions"@
}

/// The metadata that the events from `pos` on complete, up to the end tag
/// named `own`, and the index after that tag. Each element that the metadata
/// may hold sets what it names, the last to come where one comes twice; any
/// other element is a failure, as is anything but text between the elements.
pub open spec fn metadata_children(
    doc: Document,
    own: Seq<char>,
    item: MetadataView,
    pos: int,
) -> Result<(MetadataView, int), Failure>
    decreases doc.tokens@.len() - pos,
{
    if pos < 0 || pos >= doc.tokens@.len() {
        Err(Failure::UnexpectedEof)
    } else {
        match doc.tokens@[pos].event {
            XmlEvent::Start(e) => if e.name@ == "name"@ {
                match inner_text(doc.tokens@, pos + 1) {
                    Ok(t) => metadata_children(
                        doc,
                        own,
                        MetadataView { name: Some(t), ..item },
                        pos + 2,
                    ),
                    Err(f) => Err(f),
                }
            } else if e.name@ == "desc"@ {
                match inner_text(doc.tokens@, pos + 1) {
                    Ok(t) => metadata_children(
                        doc,
                        own,
                        MetadataView { description: Some(t), ..item },
                        pos + 2,
                    ),
                    Err(f) => Err(f),
                }
            } else if e.name@ == "author"@ {
                match spec_parse_person(e, doc, pos + 1) {
                    Ok((v, next)) => if pos < next <= doc.tokens@.len() {
                        metadata_children(doc, own, MetadataView { author: Some(v), ..item }, next)
                    } else {
                        Err(Failure::UnexpectedEof)
                    },
                    Err(f) => Err(f),
                }
            } else if e.name@ == "copyright"@ {
                match spec_parse_copyright(e, doc, pos + 1) {
                    Ok((v, next)) => if pos < next <= doc.tokens@.len() {
                        metadata_children(
                            doc,
                            own,
                            MetadataView { copyright: Some(v), ..item },
                            next,
                        )
                    } else {
                        Err(Failure::UnexpectedEof)
                    },
                    Err(f) => Err(f),
                }
            } else if e.name@ == "link"@ {
                match spec_parse_link(e, doc.tokens@, pos + 1) {
                    Ok((v, next)) => if pos < next <= doc.tokens@.len() {
                        metadata_children(
                            doc,
                            own,
                            MetadataView { links: item.links.push(v), ..item },
                            next,
                        )
                    } else {
                        Err(Failure::UnexpectedEof)
                    },
                    Err(f) => Err(f),
                }
            } else if e.name@ == "time"@ {
                match inner_time(doc.tokens@, pos + 1) {
                    Ok(v) => metadata_children(
                        doc,
                        own,
                        MetadataView { time: Some(v), ..item },
                        pos + 2,
                    ),
                    Err(f) => Err(f),
                }
            } else if e.name@ == "keywords"@ {
                match inner_text(doc.tokens@, pos + 1) {
                    Ok(t) => metadata_children(
                        doc,
                        own,
                        MetadataView { keywords: Some(t), ..item },
                        pos + 2,
                    ),
                    Err(f) => Err(f),
                }
            } else if e.name@ == "bounds"@ {
                match spec_parse_bounds(e) {
                    Ok(v) => metadata_children(
                        doc,
                        own,
                        MetadataView { bounds: Some(v), ..item },
                        pos + 1,
                    ),
                    Err(f) => Err(f),
                }
            } else if e.name@ == "extensions"@ {
                match spec_parse_extensions(e, doc, pos + 1) {
                    Ok((v, next)) => if pos < next <= doc.tokens@.len() {
                        metadata_children(
                            doc,
                            own,
                            MetadataView { extensions: Some(v), ..item },
                            next,
                        )
                    } else {
                        Err(Failure::UnexpectedEof)
                    },
                    Err(f) => Err(f),
                }
            } else {
                Err(Failure::UnexpectedStartElement(e.name@))
            },
            XmlEvent::Empty(e) => if e.name@ == "bounds"@ {
                match spec_parse_bounds(e) {
                    Ok(v) => metadata_children(
                        doc,
                        own,
                        MetadataView { bounds: Some(v), ..item },
                        pos + 1,
                    ),
                    Err(f) => Err(f),
                }
            } else {
                Err(Failure::UnexpectedEvent("Empty"@))
            },
            XmlEvent::End(n) => if n@ == own {
                Ok((item, pos + 1))
            } else if metadata_child(n@) {
                metadata_children(doc, own, item, pos + 1)
            } else {
                Err(Failure::UnexpectedEndElement(n@))
            },
            other => match stray(other) {
                Some(f) => Err(f),
                None => metadata_children(doc, own, item, pos + 1),
            },
        }
    }
}

/// The metadata that a start tag and the events after it make. The tag must
/// have no attributes.
pub open spec fn spec_parse_metadata(
    start_element: Element,
    doc: Document,
    pos: int,
) -> Result<(MetadataView, int), Failure> {
    match unwanted(start_element) {
        Some(f) => Err(f),
        None => metadata_children(doc, start_element.name@, Metadata::blank(), pos),
    }
}

/// Parses a `metadata` element whose start tag has just been read, and moves
/// `pos` past its end tag.
pub fn parse_metadata(
    start_element: &Element,
    doc: &Document,
    pos: &mut usize,
) -> (parsed: Result<Metadata, GapixError>)
    ensures
        agrees_at(
            parsed,
            *final(pos) as int,
            spec_parse_metadata(*start_element, *doc, *old(pos) as int),
        ),
        parsed is Ok ==> *old(pos) < *final(pos) <= doc.tokens@.len(),
{
    Attributes::check_is_empty(start_element)?;
    let mut item: Metadata = Metadata::default();
    let ghost whole = spec_parse_metadata(*start_element, *doc, *old(pos) as int);
    loop
        invariant
            whole == spec_parse_metadata(*start_element, *doc, *old(pos) as int),
            whole == metadata_children(*doc, start_element.name@, item@, *pos as int),
            *old(pos) <= *pos,
        decreases doc.tokens@.len() - *pos,
    {
        let token: Option<&Token> = token_at(doc, *pos);
        match token {
            None => {
                return Err(GapixError::UnexpectedEof);
            },
            Some(t) => match &t.event {
                XmlEvent::Start(e) => {
                    advance(doc, pos);
                    if str_eq(e.name.as_str(), "name") {
                        item.name = Some(read_inner_as_string(doc, pos)?);
                    } else if str_eq(e.name.as_str(), "desc") {
                        item.description = Some(read_inner_as_string(doc, pos)?);
                    } else if str_eq(e.name.as_str(), "author") {
                        item.author = Some(parse_person(e, doc, pos)?);
                    } else if str_eq(e.name.as_str(), "copyright") {
                        item.copyright = Some(parse_copyright(e, doc, pos)?);
                    } else if str_eq(e.name.as_str(), "link") {
                        let child: Link = parse_link(e, doc, pos)?;
                        let ghost before = item.links@;
                        item.links.push(child);
                        proof {
                            assert(link_views(item.links@) =~= link_views(
                                before,
                            ).push(child@));
                        }
                    } else if str_eq(e.name.as_str(), "time") {
                        item.time = Some(read_inner_as_time(doc, pos)?);
                    } else if str_eq(e.name.as_str(), "keywords") {
                        item.keywords = Some(read_inner_as_string(doc, pos)?);
                    } else if str_eq(e.name.as_str(), "bounds") {
                        item.bounds = Some(parse_bounds(e)?);
                    } else if str_eq(e.name.as_str(), "extensions") {
                        item.extensions = Some(parse_extensions(e, doc, pos)?);
                    } else {
                        return Err(GapixError::UnexpectedStartElement(e.name.clone()));
                    }
                },
                XmlEvent::Empty(e) => {
                    // Bounds can come as <bounds /> which will trigger this case.
                    advance(doc, pos);
                    if str_eq(e.name.as_str(), "bounds") {
                        item.bounds = Some(parse_bounds(e)?);
                    } else {
                        return Err(GapixError::UnexpectedEvent("Empty".to_owned()));
                    }
                },
                XmlEvent::End(n) => {
                    advance(doc, pos);
                    if str_eq(n.as_str(), start_element.name.as_str()) {
                        return Ok(item);
                    } else if str_eq(n.as_str(), "name")
                        || str_eq(n.as_str(), "desc")
                        || str_eq(n.as_str(), "author")
                        || str_eq(n.as_str(), "copyright")
                        || str_eq(n.as_str(), "link")
                        || str_eq(n.as_str(), "time")
                        || str_eq(n.as_str(), "keywords")
                        || str_eq(n.as_str(), "bounds")
                        || str_eq(n.as_str(), "extensions") {
                        // These are expected endings, do nothing.
                    } else {
                        return Err(GapixError::UnexpectedEndElement(n.clone()));
                    }
                },
                _ => {
                    match stray_event(token) {
                        Some(e) => {
                            return Err(e);
                        },
                        None => {
                            advance(doc, pos);
                        },
                    }
                },
            },
        }
    }
}

} // verus!
