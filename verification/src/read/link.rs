//! The `link` element.

use vstd::prelude::*;
use crate::error::{agrees_at, Failure, GapixError};
use crate::model::{Link, LinkView};
use crate::read::attributes::{
    has_attribute, leftover, lemma_taken, lemma_taken_keeps, taken, Attributes,
};
use crate::read::xml_reader_extensions::{
    advance, inner_text, read_inner_as_string, stray, stray_event, token_at,
};
use crate::text::str_eq;
use crate::xml::{attribute_views, Document, Element, Token, XmlEvent};

verus! {

/// Is `name` the name of an element that a link may hold?
pub open spec fn link_child(name: Seq<char>) -> bool {
    name == "text"@ || name == "type"@
}

/// The link that the events from `pos` on complete, up to the end tag named
/// `own`, and the index after that tag. The elements `text` and `type` set
/// what they name; any other element is a failure.
pub open spec fn link_children(
    tokens: Seq<Token>,
    own: Seq<char>,
    link: LinkView,
    pos: int,
) -> Result<
    (LinkView, int),
    Failure,
>
    decreases tokens.len() - pos,
{
    if pos < 0 || pos >= tokens.len() {
        Err(Failure::UnexpectedEof)
    } else {
        match tokens[pos].event {
            XmlEvent::Start(e) => if e.name@ == "text"@ {
                match inner_text(tokens, pos + 1) {
                    Ok(t) => link_children(
                        tokens,
                        own,
                        LinkView { text: Some(t), ..link },
                        pos + 2,
                    ),
                    Err(f) => Err(f),
                }
            } else if e.name@ == "type"@ {
                match inner_text(tokens, pos + 1) {
                    Ok(t) => link_children(
                        tokens,
                        own,
                        LinkView { type_: Some(t), ..link },
                        pos + 2,
                    ),
                    Err(f) => Err(f),
                }
            } else {
                Err(Failure::UnexpectedStartElement(e.name@))
            },
            XmlEvent::End(n) => if n@ == own {
                Ok((link, pos + 1))
            } else if link_child(n@) {
                link_children(tokens, own, link, pos + 1)
            } else {
                Err(Failure::UnexpectedEndElement(n@))
            },
            other => match stray(other) {
                Some(f) => Err(f),
                None => link_children(tokens, own, link, pos + 1),
            },
        }
    }
}

/// The link that a start tag and the events after it make. The tag must
/// have the attribute `href` and no other.
pub open spec fn spec_parse_link(start_element: Element, tokens: Seq<Token>, pos: int) -> Result<
    (LinkView, int),
    Failure,
> {
    match start_element.fault {
        Some(m) => Err(Failure::XmlError(m@)),
        None => match taken(attribute_views(start_element.attributes@), "href"@) {
            Err(f) => Err(f),
            Ok((href, rest)) => match leftover(start_element.name@, rest) {
                Some(f) => Err(f),
                None => link_children(
                    tokens,
                    start_element.name@,
                    LinkView { href, text: None, type_: None },
                    pos,
                ),
            },
        },
    }
}

/// Parses a `link` element whose start tag has just been read, and moves
/// `pos` past its end tag.
pub fn parse_link(start_element: &Element, doc: &Document, pos: &mut usize) -> (link: Result<
    Link,
    GapixError,
>)
    ensures
        agrees_at(
            link,
            *final(pos) as int,
            spec_parse_link(*start_element, doc.tokens@, *old(pos) as int),
        ),
        link is Ok ==> *old(pos) < *final(pos) <= doc.tokens@.len(),
{
    let mut attributes: Attributes = Attributes::new(start_element)?;
    let href: String = attributes.get("href")?;
    attributes.check_is_empty_now()?;
    let mut link: Link = Link { href, text: None, type_: None };
    let ghost whole = link_children(doc.tokens@, start_element.name@, link@, *pos as int);
    loop
        invariant
            whole == spec_parse_link(*start_element, doc.tokens@, *old(pos) as int),
            whole == link_children(doc.tokens@, start_element.name@, link@, *pos as int),
            *old(pos) <= *pos,
        decreases doc.tokens@.len() - *pos,
    {
        let token: Option<&Token> = token_at(doc, *pos);
        match token {
            None => {
                return Err(GapixError::UnexpectedEof);
            },
            Some(t) => match &t.event {
                XmlEvent::Start(e) => {
                    advance(doc, pos);
                    if str_eq(e.name.as_str(), "text") {
                        link.text = Some(read_inner_as_string(doc, pos)?);
                    } else if str_eq(e.name.as_str(), "type") {
                        link.type_ = Some(read_inner_as_string(doc, pos)?);
                    } else {
                        return Err(GapixError::UnexpectedStartElement(e.name.clone()));
                    }
                },
                XmlEvent::End(n) => {
                    advance(doc, pos);
                    if str_eq(n.as_str(), start_element.name.as_str()) {
                        return Ok(link);
                    } else if str_eq(n.as_str(), "text") || str_eq(n.as_str(), "type") {
                        // These are expected endings, do nothing.
                    } else {
                        return Err(GapixError::UnexpectedEndElement(n.clone()));
                    }
                },
                _ => {
                    match stray_event(token) {
                        Some(e) => {
                            return Err(e);
                        },
                        None => {
                            advance(doc, pos);
                        },
                    }
                },
            },
        }
    }
}

/// A link must have the attribute `href`, and where it is missing the
/// failure names it. And it must have no other: an attribute of another name
/// makes the failure of unexpected attributes.
pub proof fn lemma_link_attributes_strict(
    start_element: Element,
    tokens: Seq<Token>,
    pos: int,
    other: Seq<char>,
)
    requires
        start_element.fault is None,
    ensures
        ({
            let pairs = attribute_views(start_element.attributes@);
            &&& !has_attribute(pairs, "href"@) ==> spec_parse_link(start_element, tokens, pos)
                == Err::<(LinkView, int), Failure>(Failure::MandatoryAttributeNotFound("href"@))
            &&& has_attribute(pairs, "href"@) && has_attribute(pairs, other) && other != "href"@
                ==> (spec_parse_link(start_element, tokens, pos) matches Err(
                Failure::UnexpectedAttributes { element, attributes },
            ) && element == start_element.name@)
        }),
{
    let pairs = attribute_views(start_element.attributes@);
    lemma_taken(pairs, "href"@);
    if has_attribute(pairs, "href"@) && has_attribute(pairs, other) && other != "href"@ {
        lemma_taken_keeps(pairs, "href"@, other);
    }
}

} // verus!
