//! The `email` element.

use vstd::prelude::*;
use crate::error::{agrees, Failure, GapixError};
use crate::model::{Email, EmailView};
use crate::read::attributes::{
    has_attribute, leftover, lemma_taken, lemma_taken_keeps, taken, Attributes,
};
use crate::xml::{attribute_views, Element};

verus! {

/// The e-mail address that a tag gives in its attributes `id` and `domain`.
/// The tag must have both and no others.
pub open spec fn spec_parse_email(start_element: Element) -> Result<EmailView, Failure> {
    match start_element.fault {
        Some(m) => Err(Failure::XmlError(m@)),
        None => match taken(attribute_views(start_element.attributes@), "id"@) {
            Err(f) => Err(f),
            Ok((id, others)) => match taken(others, "domain"@) {
                Err(f) => Err(f),
                Ok((domain, rest)) => match leftover(start_element.name@, rest) {
                    Some(f) => Err(f),
                    None => Ok(EmailView { id, domain }),
                },
            },
        },
    }
}

/// Parses an element of the form: <email id="phil" domain="gmail.com">
pub fn parse_email(start_element: &Element) -> (email: Result<Email, GapixError>)
    ensures
        agrees(email, spec_parse_email(*start_element)),
{
    let mut attributes: Attributes = match Attributes::new(start_element) {
        Ok(a) => a,
        Err(e) => {
            return Err(e);
        },
    };
    let id: String = match attributes.get("id") {
        Ok(v) => v,
        Err(e) => {
            return Err(e);
        },
    };
    let domain: String = match attributes.get("domain") {
        Ok(v) => v,
        Err(e) => {
            return Err(e);
        },
    };
    match attributes.check_is_empty_now() {
        Ok(()) => Ok(Email { id, domain }),
        Err(e) => Err(e),
    }
}

/// An e-mail address must have the attributes `id` and `domain`: the first
/// of them that is missing makes the failure that names it. And it must have
/// no other: an attribute of another name makes the failure of unexpected
/// attributes.
pub proof fn lemma_email_attributes_strict(start_element: Element, other: Seq<char>)
    requires
        start_element.fault is None,
    ensures
        ({
            let pairs = attribute_views(start_element.attributes@);
            &&& !has_attribute(pairs, "id"@) ==> spec_parse_email(start_element) == Err::<
                EmailView,
                Failure,
            >(Failure::MandatoryAttributeNotFound("id"@))
            &&& has_attribute(pairs, "id"@) && !has_attribute(pairs, "domain"@)
                ==> spec_parse_email(start_element) == Err::<EmailView, Failure>(
                Failure::MandatoryAttributeNotFound("domain"@),
            )
            &&& has_attribute(pairs, "id"@) && has_attribute(pairs, "domain"@) && has_attribute(
                pairs,
                other,
            ) && other != "id"@ && other != "domain"@ ==> (spec_parse_email(start_element)
                matches Err(Failure::UnexpectedAttributes { element, attributes }) && element
                == start_element.name@)
        }),
{
    let pairs = attribute_views(start_element.attributes@);
    reveal_strlit("id");
    reveal_strlit("domain");
    assert("id"@.len() != "domain"@.len());
    lemma_taken(pairs, "id"@);
    if has_attribute(pairs, "id"@) {
        let others = taken(pairs, "id"@)->Ok_0.1;
        lemma_taken(others, "domain"@);
        if has_attribute(pairs, "domain"@) {
            lemma_taken_keeps(pairs, "id"@, "domain"@);
            if has_attribute(pairs, other) && other != "id"@ && other != "domain"@ {
                lemma_taken_keeps(pairs, "id"@, other);
                lemma_taken_keeps(others, "domain"@, other);
            }
        } else {
            if has_attribute(others, "domain"@) {
                crate::read::attributes::lemma_taken_from(pairs, "id"@, "domain"@);
            }
        }
    }
}

} // verus!
