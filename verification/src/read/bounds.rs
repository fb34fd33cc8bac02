//! The `bounds` element.

use vstd::prelude::*;
use vstd::utf8::encode_utf8;
use crate::error::{agrees, Failure, GapixError};
use crate::model::{bounds_fault, Bounds};
use crate::read::attributes::{
    has_attribute, leftover, lemma_taken, lemma_taken_keeps, taken, Attributes,
};
use crate::text::decimal_value;
use crate::xml::{attribute_views, AttributeView, Element};

verus! {

/// The number of decimal places to which latitudes and longitudes are kept.
pub const DEGREE_PLACES: u32 = 7;

/// What taking the attribute `key` off `pairs` and reading it as a decimal
/// number at `scale` places gives: the number and the other attributes.
pub open spec fn taken_decimal(pairs: Seq<AttributeView>, key: Seq<char>, scale: nat) -> Result<
    (i64, Seq<AttributeView>),
    Failure,
> {
    match taken(pairs, key) {
        Err(f) => Err(f),
        Ok((text, rest)) => match decimal_value(encode_utf8(text), scale) {
            Some(v) => Ok((v, rest)),
            None => Err(Failure::ParseFailure { from: text, dest_type: "decimal"@ }),
        },
    }
}

/// The bounds that a tag gives in its attributes `minlat`, `minlon`,
/// `maxlat` and `maxlon`. The tag must have all four, each a latitude or a
/// longitude in range, and no others.
pub open spec fn spec_parse_bounds(start_element: Element) -> Result<Bounds, Failure> {
    let places = DEGREE_PLACES as nat;
    match start_element.fault {
        Some(m) => Err(Failure::XmlError(m@)),
        None => match taken_decimal(attribute_views(start_element.attributes@), "minlat"@, places) {
            Err(f) => Err(f),
            Ok((min_lat, a)) => match taken_decimal(a, "minlon"@, places) {
                Err(f) => Err(f),
                Ok((min_lon, b)) => match taken_decimal(b, "maxlat"@, places) {
                    Err(f) => Err(f),
                    Ok((max_lat, c)) => match taken_decimal(c, "maxlon"@, places) {
                        Err(f) => Err(f),
                        Ok((max_lon, rest)) => match bounds_fault(
                            min_lat,
                            min_lon,
                            max_lat,
                            max_lon,
                        ) {
                            Some(f) => Err(f),
                            None => match leftover(start_element.name@, rest) {
                                Some(f) => Err(f),
                                None => Ok(Bounds { min_lat, min_lon, max_lat, max_lon }),
                            },
                        },
                    },
                },
            },
        },
    }
}

/// Parses an element of the form:
/// <bounds minlat="-1.1" maxlat="1.1" minlon="-53.1" maxlon="88.8">
pub fn parse_bounds(start_element: &Element) -> (bounds: Result<Bounds, GapixError>)
    ensures
        agrees(bounds, spec_parse_bounds(*start_element)),
{
    let mut attributes: Attributes = Attributes::new(start_element)?;
    let min_lat: i64 = attributes.get_decimal("minlat", DEGREE_PLACES)?;
    let min_lon: i64 = attributes.get_decimal("minlon", DEGREE_PLACES)?;
    let max_lat: i64 = attributes.get_decimal("maxlat", DEGREE_PLACES)?;
    let max_lon: i64 = attributes.get_decimal("maxlon", DEGREE_PLACES)?;
    let bounds: Bounds = Bounds::new(min_lat, min_lon, max_lat, max_lon)?;
    attributes.check_is_empty_now()?;
    Ok(bounds)
}

/// A mandatory attribute that should hold a number and is missing makes the
/// failure that names it; taking one that is there leaves the attributes of
/// other names in place.
pub proof fn lemma_taken_decimal(
    pairs: Seq<AttributeView>,
    key: Seq<char>,
    scale: nat,
    other: Seq<char>,
)
    ensures
        !has_attribute(pairs, key) ==> taken_decimal(pairs, key, scale) == Err::<
            (i64, Seq<AttributeView>),
            Failure,
        >(Failure::MandatoryAttributeNotFound(key)),
        taken_decimal(pairs, key, scale) matches Ok(t) ==> (has_attribute(pairs, other) && other
            != key ==> has_attribute(t.1, other)),
{
    lemma_taken(pairs, key);
    if taken_decimal(pairs, key, scale) is Ok && has_attribute(pairs, other) && other != key {
        lemma_taken_keeps(pairs, key, other);
    }
}

/// Bounds must have all four of their attributes: where `minlat` is missing
/// the failure names it. And they must have no other: once the four have
/// been read as corners in range, an attribute of another name makes the
/// failure of unexpected attributes.
pub proof fn lemma_bounds_attributes_strict(start_element: Element, other: Seq<char>)
    requires
        start_element.fault is None,
    ensures
        ({
            let pairs = attribute_views(start_element.attributes@);
            let places = DEGREE_PLACES as nat;
            &&& !has_attribute(pairs, "minlat"@) ==> spec_parse_bounds(start_element) == Err::<
                Bounds,
                Failure,
            >(Failure::MandatoryAttributeNotFound("minlat"@))
            &&& (taken_decimal(pairs, "minlat"@, places) matches Ok(a) && taken_decimal(
                a.1,
                "minlon"@,
                places,
            ) matches Ok(b) && taken_decimal(b.1, "maxlat"@, places) matches Ok(c)
                && taken_decimal(c.1, "maxlon"@, places) matches Ok(d) && bounds_fault(
                a.0,
                b.0,
                c.0,
                d.0,
            ) is None && has_attribute(pairs, other) && other != "minlat"@ && other != "minlon"@
                && other != "maxlat"@ && other != "maxlon"@ ==> (spec_parse_bounds(start_element)
                matches Err(Failure::UnexpectedAttributes { element, attributes }) && element
                == start_element.name@))
        }),
{
    let pairs = attribute_views(start_element.attributes@);
    let places = DEGREE_PLACES as nat;
    lemma_taken_decimal(pairs, "minlat"@, places, other);
    match taken_decimal(pairs, "minlat"@, places) {
        Ok(a) => {
            lemma_taken_decimal(a.1, "minlon"@, places, other);
            match taken_decimal(a.1, "minlon"@, places) {
                Ok(b) => {
                    lemma_taken_decimal(b.1, "maxlat"@, places, other);
                    match taken_decimal(b.1, "maxlat"@, places) {
                        Ok(c) => {
                            lemma_taken_decimal(c.1, "maxlon"@, places, other);
                        },
                        Err(_) => {},
                    }
                },
                Err(_) => {},
            }
        },
        Err(_) => {},
    }
}

} // verus!
