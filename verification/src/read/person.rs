//! The `author` element: a person or an organisation.

use vstd::prelude::*;
use crate::error::{agrees_at, Failure, GapixError};
use crate::model::{Person, PersonView};
use crate::read::attributes::{unwanted, Attributes};
use crate::read::email::{parse_email, spec_parse_email};
use crate::read::link::{parse_link, spec_parse_link};
use crate::read::xml_reader_extensions::{
    advance, inner_text, read_inner_as_string, stray, stray_event, token_at,
};
use crate::text::str_eq;
use crate::xml::{Document, Element, Token, XmlEvent};

verus! {

/// Is `name` the name of an element that a person may hold?
pub open spec fn person_child(name: Seq<char>) -> bool {
    ||| name == "name"@
    ||| name == "email"@
    ||| name == "link"@
}

/// The person that the events from `pos` on complete, up to the end tag named
/// `own`, and the index after that tag. Each element that a person may hold
/// sets what it names, the last to come where one comes twice; any other
/// element is a failure, as is anything but text between the elements.
pub open spec fn person_children(
    doc: Document,
    own: Seq<char>,
    item: PersonView,
    pos: int,
) -> Result<(PersonView, int), Failure>
    decreases doc.tokens@.len() - pos,
{
    if pos < 0 || pos >= doc.tokens@.len() {
        Err(Failure::UnexpectedEof)
    } else {
        match doc.tokens@[pos].event {
            XmlEvent::Start(e) => if e.name@ == "name"@ {
                match inner_text(doc.tokens@, pos + 1) {
                    Ok(t) => person_children(
                        doc,
                        own,
                        PersonView { name: Some(t), ..item },
                        pos + 2,
                    ),
                    Err(f) => Err(f),
                }
            } else if e.name@ == "email"@ {
                match spec_parse_email(e) {
                    Ok(v) => person_children(
                        doc,
                        own,
                        PersonView { email: Some(v), ..item },
                        pos + 1,
                    ),
                    Err(f) => Err(f),
                }
            } else if e.name@ == "link"@ {
                match spec_parse_link(e, doc.tokens@, pos + 1) {
                    Ok((v, next)) => if pos < next <= doc.tokens@.len() {
                        person_children(doc, own, PersonView { link: Some(v), ..item }, next)
                    } else {
                        Err(Failure::UnexpectedEof)
                    },
                    Err(f) => Err(f),
                }
            } else {
                Err(Failure::UnexpectedStartElement(e.name@))
            },
            XmlEvent::Empty(e) => if e.name@ == "email"@ {
                match spec_parse_email(e) {
                    Ok(v) => person_children(
                        doc,
                        own,
                        PersonView { email: Some(v), ..item },
                        pos + 1,
                    ),
                    Err(f) => Err(f),
                }
            } else {
                Err(Failure::UnexpectedEvent("Empty"@))
            },
            XmlEvent::End(n) => if n@ == own {
                Ok((item, pos + 1))
            } else if person_child(n@) {
                person_children(doc, own, item, pos + 1)
            } else {
                Err(Failure::UnexpectedEndElement(n@))
            },
            other => match stray(other) {
                Some(f) => Err(f),
                None => person_children(doc, own, item, pos + 1),
            },
        }
    }
}

/// The person that a start tag and the events after it make. The tag must
/// have no attributes.
pub open spec fn spec_parse_person(
    start_element: Element,
    doc: Document,
    pos: int,
) -> Result<(PersonView, int), Failure> {
    match unwanted(start_element) {
        Some(f) => Err(f),
        None => person_children(doc, start_element.name@, Person::blank(), pos),
    }
}

/// Parses the element of a person whose start tag has just been read, and
/// moves `pos` past its end tag.
pub fn parse_person(
    start_element: &Element,
    doc: &Document,
    pos: &mut usize,
) -> (parsed: Result<Person, GapixError>)
    ensures
        agrees_at(
            parsed,
            *final(pos) as int,
            spec_parse_person(*start_element, *doc, *old(pos) as int),
        ),
        parsed is Ok ==> *old(pos) < *final(pos) <= doc.tokens@.len(),
{
    Attributes::check_is_empty(start_element)?;
    let mut item: Person = Person::default();
    let ghost whole = spec_parse_person(*start_element, *doc, *old(pos) as int);
    loop
        invariant
            whole == spec_parse_person(*start_element, *doc, *old(pos) as int),
            whole == person_children(*doc, start_element.name@, item@, *pos as int),
            *old(pos) <= *pos,
        decreases doc.tokens@.len() - *pos,
    {
        let token: Option<&Token> = token_at(doc, *pos);
        match token {
            None => {
                return Err(GapixError::UnexpectedEof);
            },
            Some(t) => match &t.event {
                XmlEvent::Start(e) => {
                    advance(doc, pos);
                    if str_eq(e.name.as_str(), "name") {
                        item.name = Some(read_inner_as_string(doc, pos)?);
                    } else if str_eq(e.name.as_str(), "email") {
                        item.email = Some(parse_email(e)?);
                    } else if str_eq(e.name.as_str(), "link") {
                        item.link = Some(parse_link(e, doc, pos)?);
                    } else {
                        return Err(GapixError::UnexpectedStartElement(e.name.clone()));
                    }
                },
                XmlEvent::Empty(e) => {
                    // An address can come as <email /> which will trigger this case.
                    advance(doc, pos);
                    if str_eq(e.name.as_str(), "email") {
                        item.email = Some(parse_email(e)?);
                    } else {
                        return Err(GapixError::UnexpectedEvent("Empty".to_owned()));
                    }
                },
                XmlEvent::End(n) => {
                    advance(doc, pos);
                    if str_eq(n.as_str(), start_element.name.as_str()) {
                        return Ok(item);
                    } else if str_eq(n.as_str(), "name")
                        || str_eq(n.as_str(), "email")
                        || str_eq(n.as_str(), "link") {
                        // These are expected endings, do nothing.
                    } else {
                        return Err(GapixError::UnexpectedEndElement(n.clone()));
                    }
                },
                _ => {
                    match stray_event(token) {
                        Some(e) => {
                            return Err(e);
                        },
                        None => {
                            advance(doc, pos);
                        },
                    }
                },
            },
        }
    }
}

} // verus!
