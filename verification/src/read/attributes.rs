//! The attributes of one tag, taken off one by one as a parser asks for
//! them. What is left at the end was not expected.

use vstd::prelude::*;
use vstd::string::StringExecFns;
use vstd::string::StringSliceAdditionalSpecFns;
use crate::error::{Failure, GapixError};
use crate::text::{decimal_value, parse_decimal, str_eq};
use crate::xml::{attribute_views, Attribute, AttributeView, Element};

verus! {

/// The attributes of a tag that have not been asked for yet.
#[derive(Debug)]
pub struct Attributes {
    data: Vec<Attribute>,
    start_element_name: String,
}

/// Index of the first of the first `n` attributes that is named `key`.
pub open spec fn first_named(pairs: Seq<AttributeView>, key: Seq<char>, from: int) -> Option<int>
    decreases pairs.len() - from,
{
    if from < 0 || from >= pairs.len() {
        None
    } else if pairs[from].name == key {
        Some(from)
    } else {
        first_named(pairs, key, from + 1)
    }
}

/// The names of the first `n` attributes, with commas between them.
pub open spec fn joined_names(pairs: Seq<AttributeView>, n: int) -> Seq<char>
    decreases n,
{
    if n <= 0 {
        Seq::empty()
    } else if n == 1 {
        pairs[0].name
    } else {
        joined_names(pairs, n - 1) + ","@ + pairs[n - 1].name
    }
}

/// What taking the attribute `key` off `pairs` gives: its value and the
/// other attributes, or the failure to find it.
pub open spec fn taken(pairs: Seq<AttributeView>, key: Seq<char>) -> Result<
    (Seq<char>, Seq<AttributeView>),
    Failure,
> {
    match first_named(pairs, key, 0) {
        Some(i) => Ok((pairs[i].value, pairs.remove(i))),
        None => Err(Failure::MandatoryAttributeNotFound(key)),
    }
}

/// The attributes that a tag must not have: all those that are left over,
/// as the failure they make, or none.
pub open spec fn leftover(element: Seq<char>, pairs: Seq<AttributeView>) -> Option<Failure> {
    if pairs.len() == 0 {
        None
    } else {
        Some(
            Failure::UnexpectedAttributes {
                element,
                attributes: joined_names(pairs, pairs.len() as int),
            },
        )
    }
}

/// What is wrong with a tag that must have no attributes, if anything: a
/// broken attribute list, or attributes.
pub open spec fn unwanted(element: Element) -> Option<Failure> {
    match element.fault {
        Some(m) => Some(Failure::XmlError(m@)),
        None => leftover(element.name@, attribute_views(element.attributes@)),
    }
}

/// An index found lies at or after `from`, within the list, and on an
/// attribute of that name; before it there is none of that name.
pub proof fn lemma_first_named(pairs: Seq<AttributeView>, key: Seq<char>, from: int)
    requires
        0 <= from,
    ensures
        first_named(pairs, key, from) matches Some(i) ==> from <= i < pairs.len() && pairs[i].name
            == key,
    decreases pairs.len() - from,
{
    if from < pairs.len() && pairs[from].name != key {
        lemma_first_named(pairs, key, from + 1);
    }
}

/// Is there an attribute named `name` among `pairs`?
pub open spec fn has_attribute(pairs: Seq<AttributeView>, name: Seq<char>) -> bool {
    exists|i: int| 0 <= i < pairs.len() && (#[trigger] pairs[i]).name == name
}

/// Where the search from `from` on finds nothing, no attribute from there on
/// has the name.
pub proof fn lemma_first_named_none(pairs: Seq<AttributeView>, key: Seq<char>, from: int)
    requires
        0 <= from,
        first_named(pairs, key, from) is None,
    ensures
        forall|i: int| from <= i < pairs.len() ==> (#[trigger] pairs[i]).name != key,
    decreases pairs.len() - from,
{
    if from < pairs.len() {
        lemma_first_named_none(pairs, key, from + 1);
    }
}

/// A mandatory attribute that is missing makes the failure that names it,
/// and one that is there is taken.
pub proof fn lemma_taken(pairs: Seq<AttributeView>, key: Seq<char>)
    ensures
        !has_attribute(pairs, key) ==> taken(pairs, key) == Err::<
            (Seq<char>, Seq<AttributeView>),
            Failure,
        >(Failure::MandatoryAttributeNotFound(key)),
        has_attribute(pairs, key) ==> taken(pairs, key) is Ok,
{
    lemma_first_named(pairs, key, 0);
    if first_named(pairs, key, 0) is None {
        lemma_first_named_none(pairs, key, 0);
    }
}

/// Taking one attribute off leaves the attributes of other names in place.
pub proof fn lemma_taken_keeps(pairs: Seq<AttributeView>, key: Seq<char>, other: Seq<char>)
    requires
        other != key,
        has_attribute(pairs, other),
        taken(pairs, key) is Ok,
    ensures
        has_attribute(taken(pairs, key)->Ok_0.1, other),
{
    lemma_first_named(pairs, key, 0);
    let i = first_named(pairs, key, 0)->0;
    let rest = pairs.remove(i);
    let j = choose|j: int| 0 <= j < pairs.len() && (#[trigger] pairs[j]).name == other;
    if j < i {
        assert(rest[j].name == other);
    } else {
        assert(rest[j - 1].name == other);
    }
}

/// What is left after one attribute has been taken off was there before.
pub proof fn lemma_taken_from(pairs: Seq<AttributeView>, key: Seq<char>, other: Seq<char>)
    requires
        taken(pairs, key) is Ok,
        has_attribute(taken(pairs, key)->Ok_0.1, other),
    ensures
        has_attribute(pairs, other),
{
    lemma_first_named(pairs, key, 0);
    let i = first_named(pairs, key, 0)->0;
    let rest = pairs.remove(i);
    let j = choose|j: int| 0 <= j < rest.len() && (#[trigger] rest[j]).name == other;
    if j < i {
        assert(pairs[j].name == other);
    } else {
        assert(pairs[j + 1].name == other);
    }
}

/// A tag that must have no attributes fails with the attributes that it
/// has: whatever attribute it has is not in its recognized set.
pub proof fn lemma_no_attributes_allowed(element: Element)
    requires
        element.fault is None,
        element.attributes@.len() > 0,
    ensures
        unwanted(element) == Some(
            Failure::UnexpectedAttributes {
                element: element.name@,
                attributes: joined_names(
                    attribute_views(element.attributes@),
                    element.attributes@.len() as int,
                ),
            },
        ),
{
}

/// Checks that no attribute is left of the tag named `element`: those that
/// are left were not expected on it.
pub fn check_none_left(element: &str, attributes: &Vec<Attribute>) -> (checked: Result<
    (),
    GapixError,
>)
    ensures
        checked is Ok <==> leftover(element@, attribute_views(attributes@)) is None,
        checked matches Err(e) ==> leftover(element@, attribute_views(attributes@)) == Some(e@),
{
    let n: usize = attributes.len();
    if n == 0 {
        return Ok(());
    }
    let mut joined_attributes: String = attributes[0].name.clone();
    let mut i: usize = 1;
    while i < n
        invariant
            n == attributes@.len(),
            1 <= i <= n,
            joined_attributes@ == joined_names(attribute_views(attributes@), i as int),
        decreases n - i,
    {
        joined_attributes.append(",");
        joined_attributes.append(attributes[i].name.as_str());
        i += 1;
    }
    Err(
        GapixError::UnexpectedAttributes {
            element: element.to_owned(),
            attributes: joined_attributes,
        },
    )
}

impl Attributes {
    /// The attributes that are left.
    pub closed spec fn pairs(&self) -> Seq<AttributeView> {
        attribute_views(self.data@)
    }

    /// The name of the tag that the attributes are of.
    pub closed spec fn element(&self) -> Seq<char> {
        self.start_element_name@
    }

    /// Takes all the attributes of the specified tag and holds them for
    /// later use. Fails where the attribute list of the tag is broken.
    pub fn new(start_element: &Element) -> (made: Result<Self, GapixError>)
        ensures
            start_element.fault matches Some(m) ==> (made matches Err(e) && e@ == Failure::XmlError(
                m@,
            )),
            start_element.fault is None ==> (made matches Ok(a) && a.pairs() == attribute_views(
                start_element.attributes@,
            ) && a.element() == start_element.name@),
    {
        match &start_element.fault {
            Some(message) => Err(GapixError::XmlError(message.clone())),
            None => {
                let n: usize = start_element.attributes.len();
                let mut data: Vec<Attribute> = Vec::new();
                let mut i: usize = 0;
                while i < n
                    invariant
                        n == start_element.attributes@.len(),
                        i <= n,
                        data@.len() == i,
                        forall|j: int|
                            0 <= j < i ==> (#[trigger] data@[j])@ == start_element.attributes@[j]@,
                    decreases n - i,
                {
                    let a: &Attribute = &start_element.attributes[i];
                    data.push(Attribute { name: a.name.clone(), value: a.value.clone() });
                    i += 1;
                }
                proof {
                    assert(attribute_views(data@) =~= attribute_views(start_element.attributes@));
                }
                Ok(Attributes { data, start_element_name: start_element.name.clone() })
            },
        }
    }

    /// Checks that a tag has no attributes and fails with an error if it
    /// has.
    pub fn check_is_empty(start_element: &Element) -> (checked: Result<(), GapixError>)
        ensures
            checked is Ok <==> unwanted(*start_element) is None,
            checked matches Err(e) ==> unwanted(*start_element) == Some(e@),
    {
        match Attributes::new(start_element) {
            Ok(attributes) => attributes.check_is_empty_now(),
            Err(e) => Err(e),
        }
    }

    /// Checks that the attribute set is now empty: what is left in it was
    /// not expected on the tag.
    pub fn check_is_empty_now(&self) -> (checked: Result<(), GapixError>)
        ensures
            checked is Ok <==> leftover(self.element(), self.pairs()) is None,
            checked matches Err(e) ==> leftover(self.element(), self.pairs()) == Some(e@),
    {
        check_none_left(self.start_element_name.as_str(), &self.data)
    }

    /// Returns the number of attributes that are left.
    pub fn len(&self) -> (n: usize)
        ensures
            n == self.pairs().len(),
    {
        self.data.len()
    }

    /// Returns true if no attribute is left.
    pub fn is_empty(&self) -> (b: bool)
        ensures
            b == (self.pairs().len() == 0),
    {
        self.data.len() == 0
    }

    /// Returns the attributes that are left, in the order written.
    pub fn into_inner(self) -> (left: Vec<Attribute>)
        ensures
            attribute_views(left@) == self.pairs(),
    {
        self.data
    }

    /// Gets a mandatory attribute. The attribute is taken off the set and
    /// its value returned to the caller.
    pub fn get(&mut self, key: &str) -> (value: Result<String, GapixError>)
        ensures
            final(self).element() == old(self).element(),
            value matches Ok(v) ==> taken(old(self).pairs(), key@) == Ok::<_, Failure>(
                (v@, final(self).pairs()),
            ),
            value matches Err(e) ==> taken(old(self).pairs(), key@) == Err::<
                (Seq<char>, Seq<AttributeView>),
                _,
            >(e@) && final(self).pairs() == old(self).pairs(),
    {
        let n: usize = self.data.len();
        let mut i: usize = 0;
        while i < n
            invariant
                n == self.data@.len(),
                i <= n,
                *self == *old(self),
                first_named(self.pairs(), key@, 0) == first_named(self.pairs(), key@, i as int),
            decreases n - i,
        {
            if str_eq(self.data[i].name.as_str(), key) {
                let ghost before = self.data@;
                let found: Attribute = self.data.remove(i);
                proof {
                    assert(attribute_views(self.data@) =~= attribute_views(before).remove(
                        i as int,
                    ));
                }
                return Ok(found.value);
            }
            i += 1;
        }
        Err(GapixError::MandatoryAttributeNotFound(key.to_owned()))
    }

    /// Gets a mandatory attribute that holds a decimal number, as a whole
    /// number of units of 10^-`scale`.
    pub fn get_decimal(&mut self, key: &str, scale: u32) -> (value: Result<i64, GapixError>)
        requires
            scale <= 18,
        ensures
            final(self).element() == old(self).element(),
            value matches Ok(v) ==> (taken(old(self).pairs(), key@) matches Ok(t) && t.1
                == final(self).pairs() && decimal_value(vstd::utf8::encode_utf8(t.0), scale as nat)
                == Some(v)),
            value matches Err(e) ==> e@ == (match taken(old(self).pairs(), key@) {
                Ok(t) => Failure::ParseFailure { from: t.0, dest_type: "decimal"@ },
                Err(f) => f,
            }) && (taken(old(self).pairs(), key@) matches Ok(t) ==> decimal_value(
                vstd::utf8::encode_utf8(t.0),
                scale as nat,
            ) is None),
    {
        match self.get(key) {
            Ok(text) => match parse_decimal(text.as_str(), scale) {
                Some(v) => Ok(v),
                None => Err(
                    GapixError::ParseFailure { from: text, dest_type: "decimal".to_owned() },
                ),
            },
            Err(e) => Err(e),
        }
    }
}

} // verus!
