//! The `copyright` element.

use vstd::prelude::*;
use crate::error::{agrees_at, Failure, GapixError};
use crate::model::{Copyright, CopyrightView};
use crate::read::attributes::{unwanted, Attributes};
use crate::read::xml_reader_extensions::{
    advance, inner_integer, inner_text, read_inner_as_integer, read_inner_as_string, stray,
    stray_event, token_at,
};
use crate::text::str_eq;
use crate::xml::{Document, Element, Token, XmlEvent};

verus! {

/// Is `name` the name of an element that a copyright notice may hold?
pub open spec fn copyright_child(name: Seq<char>) -> bool {
    ||| name == "year"@
    ||| name == "license"@
    ||| name == "author"@
}

/// The copyright notice that the events from `pos` on complete, up to the end
/// tag named `own`, and the index after that tag. Each element that a
/// copyright notice may hold sets what it names, the last to come where one
/// comes twice; any other element is a failure, as is anything but text
/// between the elements.
pub open spec fn copyright_children(
    doc: Document,
    own: Seq<char>,
    item: CopyrightView,
    pos: int,
) -> Result<(CopyrightView, int), Failure>
    decreases doc.tokens@.len() - pos,
{
    if pos < 0 || pos >= doc.tokens@.len() {
        Err(Failure::UnexpectedEof)
    } else {
        match doc.tokens@[pos].event {
            XmlEvent::Start(e) => if e.name@ == "year"@ {
                match inner_integer(doc.tokens@, pos + 1, i16::MIN as i64, i16::MAX as i64) {
                    Ok(v) => copyright_children(
                        doc,
                        own,
                        CopyrightView { year: Some(v as i16), ..item },
                        pos + 2,
                    ),
                    Err(f) => Err(f),
                }
            } else if e.name@ == "license"@ {
                match inner_text(doc.tokens@, pos + 1) {
                    Ok(t) => copyright_children(
                        doc,
                        own,
                        CopyrightView { license: Some(t), ..item },
                        pos + 2,
                    ),
                    Err(f) => Err(f),
                }
            } else if e.name@ == "author"@ {
                match inner_text(doc.tokens@, pos + 1) {
                    Ok(t) => copyright_children(
                        doc,
                        own,
                        CopyrightView { author: t, ..item },
                        pos + 2,
                    ),
                    Err(f) => Err(f),
                }
            } else {
                Err(Failure::UnexpectedStartElement(e.name@))
            },
            XmlEvent::End(n) => if n@ == own {
                if item.author.len() == 0 {
                    Err(Failure::MandatoryElementNotFound("author"@))
                } else {
                    Ok((item, pos + 1))
                }
            } else if copyright_child(n@) {
                copyright_children(doc, own, item, pos + 1)
            } else {
                Err(Failure::UnexpectedEndElement(n@))
            },
            other => match stray(other) {
                Some(f) => Err(f),
                None => copyright_children(doc, own, item, pos + 1),
            },
        }
    }
}

/// The copyright notice that a start tag and the events after it make. The tag must
/// have no attributes.
pub open spec fn spec_parse_copyright(
    start_element: Element,
    doc: Document,
    pos: int,
) -> Result<(CopyrightView, int), Failure> {
    match unwanted(start_element) {
        Some(f) => Err(f),
        None => copyright_children(doc, start_element.name@, Copyright::blank(), pos),
    }
}

/// Parses a `copyright` element whose start tag has just been read, and moves
/// `pos` past its end tag.
pub fn parse_copyright(
    start_element: &Element,
    doc: &Document,
    pos: &mut usize,
) -> (parsed: Result<Copyright, GapixError>)
    ensures
        agrees_at(
            parsed,
            *final(pos) as int,
            spec_parse_copyright(*start_element, *doc, *old(pos) as int),
        ),
        parsed is Ok ==> *old(pos) < *final(pos) <= doc.tokens@.len(),
{
    Attributes::check_is_empty(start_element)?;
    let mut item: Copyright = Copyright::default();
    let ghost whole = spec_parse_copyright(*start_element, *doc, *old(pos) as int);
    loop
        invariant
            whole == spec_parse_copyright(*start_element, *doc, *old(pos) as int),
            whole == copyright_children(*doc, start_element.name@, item@, *pos as int),
            *old(pos) <= *pos,
        decreases doc.tokens@.len() - *pos,
    {
        let token: Option<&Token> = token_at(doc, *pos);
        match token {
            None => {
                return Err(GapixError::UnexpectedEof);
            },
            Some(t) => match &t.event {
                XmlEvent::Start(e) => {
                    advance(doc, pos);
                    if str_eq(e.name.as_str(), "year") {
                        let number: i64 = read_inner_as_integer(
                            doc,
                            pos,
                            i16::MIN as i64,
                            i16::MAX as i64,
                        )?;
                        item.year = Some(number as i16);
                    } else if str_eq(e.name.as_str(), "license") {
                        item.license = Some(read_inner_as_string(doc, pos)?);
                    } else if str_eq(e.name.as_str(), "author") {
                        item.author = read_inner_as_string(doc, pos)?;
                    } else {
                        return Err(GapixError::UnexpectedStartElement(e.name.clone()));
                    }
                },
                XmlEvent::End(n) => {
                    advance(doc, pos);
                    if str_eq(n.as_str(), start_element.name.as_str()) {
                        if item.author.as_str().is_empty() {
                            return Err(GapixError::MandatoryElementNotFound("author".to_owned()));
                        }
                        return Ok(item);
                    } else if str_eq(n.as_str(), "year")
                        || str_eq(n.as_str(), "license")
                        || str_eq(n.as_str(), "author") {
                        // These are expected endings, do nothing.
                    } else {
                        return Err(GapixError::UnexpectedEndElement(n.clone()));
                    }
                },
                _ => {
                    match stray_event(token) {
                        Some(e) => {
                            return Err(e);
                        },
                        None => {
                            advance(doc, pos);
                        },
                    }
                },
            },
        }
    }
}

} // verus!
