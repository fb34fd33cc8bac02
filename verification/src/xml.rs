//! The markup of a document as a list of events.
//!
//! The tokenizer is `quick_xml`. Its events are taken over one by one into
//! plain values, each with the offset at which it ends, so that the parsers
//! can work on a list and can cut the raw text between two events out of the
//! document.

use vstd::prelude::*;
use vstd::string::StringSliceAdditionalSpecFns;
use crate::text::str_eq;

verus! {

/// `quick_xml::Reader`, the tokenizer: carried through as it is.
#[verifier::external_type_specification]
#[verifier::external_body]
#[verifier::reject_recursive_types(R)]
pub struct ExReader<R>(quick_xml::Reader<R>);

/// `quick_xml::events::Event`, an event of the tokenizer: carried through
/// as it is and taken apart by the functions below.
#[verifier::external_type_specification]
#[verifier::external_body]
pub struct ExEvent<'a>(quick_xml::events::Event<'a>);

/// An attribute of a tag, as written: nothing is unescaped.
#[derive(Clone, Debug, PartialEq, Eq)]
pub struct Attribute {
    pub name: String,
    pub value: String,
}

/// The value of an [`Attribute`].
pub struct AttributeView {
    pub name: Seq<char>,
    pub value: Seq<char>,
}

impl View for Attribute {
    type V = AttributeView;

    open spec fn view(&self) -> AttributeView {
        AttributeView { name: self.name@, value: self.value@ }
    }
}

/// The values of a list of attributes.
pub open spec fn attribute_views(items: Seq<Attribute>) -> Seq<AttributeView> {
    items.map_values(|item: Attribute| item@)
}

/// A start tag or an empty-element tag.
#[derive(Debug)]
pub struct Element {
    pub name: String,
    /// The attributes in the order in which they are written.
    pub attributes: Vec<Attribute>,
    /// What is wrong with the attribute list, if anything; it then holds no
    /// attributes.
    pub fault: Option<String>,
}

/// The XML declaration at the head of a document.
#[derive(Debug)]
pub struct DeclarationTag {
    /// The version; empty where the declaration is at fault.
    pub version: String,
    pub encoding: Option<String>,
    pub standalone: Option<String>,
    /// The attributes that are none of these three, in the order in which
    /// they are written.
    pub others: Vec<Attribute>,
    /// What is wrong with the declaration, if anything; it then gives
    /// nothing.
    pub fault: Option<String>,
}

/// One event of the markup.
#[derive(Debug)]
pub enum XmlEvent {
    Decl(DeclarationTag),
    Start(Element),
    Empty(Element),
    /// An end tag, with its name.
    End(String),
    Text(String),
    /// Text that is not in the document's encoding, with the decoder's
    /// message.
    Undecodable(String),
    /// A comment, a CDATA section, a processing instruction or a document
    /// type declaration.
    Other,
    /// The end of the document.
    Eof,
    /// Broken markup, with the tokenizer's message. Nothing follows it.
    Malformed(String),
}

/// An event and the offset in the document at which it ends.
#[derive(Debug)]
pub struct Token {
    pub event: XmlEvent,
    pub end: usize,
}

/// A document and its events.
#[derive(Debug)]
pub struct Document<'a> {
    pub data: &'a [u8],
    pub tokens: Vec<Token>,
}

/// The kinds of event that the tokenizer tells apart.
pub enum Markup {
    Declaration,
    Start,
    Empty,
    End,
    Text,
    Other,
    Eof,
}

/// What an event of the tokenizer holds, as bytes: nothing is decoded yet.
/// Where the tokenizer finds a part of it broken, the part is the
/// tokenizer's message.
pub enum RawEvent {
    /// A declaration: what it gives as its version, its encoding and its
    /// standalone flag, and its attributes, keys and values, in the order
    /// written.
    Declaration {
        version: Result<Seq<u8>, Seq<char>>,
        encoding: Result<Option<Seq<u8>>, Seq<char>>,
        standalone: Result<Option<Seq<u8>>, Seq<char>>,
        attributes: Result<Seq<(Seq<u8>, Seq<u8>)>, Seq<char>>,
    },
    /// A start tag: its name and its attributes, keys and values, in the
    /// order written.
    Start { name: Seq<u8>, attributes: Result<Seq<(Seq<u8>, Seq<u8>)>, Seq<char>> },
    /// An empty-element tag, likewise.
    Empty { name: Seq<u8>, attributes: Result<Seq<(Seq<u8>, Seq<u8>)>, Seq<char>> },
    /// An end tag, with its name.
    End { name: Seq<u8> },
    Text { content: Seq<u8> },
    /// A comment, a CDATA section, a processing instruction or a document
    /// type declaration.
    Other,
    /// The end of the document.
    Eof,
}

/// One read of the tokenizer: the event or the tokenizer's message, and
/// the offset that the tokenizer has reached with it.
pub struct RawStep {
    pub event: Result<RawEvent, Seq<char>>,
    pub end: u64,
}

/// What the read number `k`, counted from 0, gives on a tokenizer that was
/// opened at the beginning of `data`.
pub uninterp spec fn tokenized(data: Seq<u8>, k: nat) -> RawStep;

/// What the read number `k` from now, counted from 0, gives on the
/// tokenizer.
pub uninterp spec fn events_ahead(reader: quick_xml::Reader<&[u8]>, k: nat) -> RawStep;

/// What an event of the tokenizer holds.
pub uninterp spec fn event_held(event: quick_xml::events::Event) -> RawEvent;

/// The kind of an event.
pub open spec fn markup_in(raw: RawEvent) -> Markup {
    match raw {
        RawEvent::Declaration { .. } => Markup::Declaration,
        RawEvent::Start { .. } => Markup::Start,
        RawEvent::Empty { .. } => Markup::Empty,
        RawEvent::End { .. } => Markup::End,
        RawEvent::Text { .. } => Markup::Text,
        RawEvent::Other => Markup::Other,
        RawEvent::Eof => Markup::Eof,
    }
}

/// The name of a tag, none for other events.
pub open spec fn name_in(raw: RawEvent) -> Seq<u8> {
    match raw {
        RawEvent::Start { name, .. } => name,
        RawEvent::Empty { name, .. } => name,
        RawEvent::End { name } => name,
        _ => Seq::empty(),
    }
}

/// The attributes of a start tag or of an empty-element tag, none for
/// other events.
pub open spec fn attributes_in(raw: RawEvent) -> Result<Seq<(Seq<u8>, Seq<u8>)>, Seq<char>> {
    match raw {
        RawEvent::Start { attributes, .. } => attributes,
        RawEvent::Empty { attributes, .. } => attributes,
        _ => Ok(Seq::empty()),
    }
}

/// The attributes of a declaration, none for other events.
pub open spec fn declared_in(raw: RawEvent) -> Result<Seq<(Seq<u8>, Seq<u8>)>, Seq<char>> {
    match raw {
        RawEvent::Declaration { attributes, .. } => attributes,
        _ => Ok(Seq::empty()),
    }
}

/// The content of a text event, none for other events.
pub open spec fn content_in(raw: RawEvent) -> Seq<u8> {
    match raw {
        RawEvent::Text { content } => content,
        _ => Seq::empty(),
    }
}

/// The version that a declaration gives, none for other events.
pub open spec fn version_in(raw: RawEvent) -> Result<Seq<u8>, Seq<char>> {
    match raw {
        RawEvent::Declaration { version, .. } => version,
        _ => Ok(Seq::empty()),
    }
}

/// The encoding that a declaration gives, none for other events.
pub open spec fn encoding_in(raw: RawEvent) -> Result<Option<Seq<u8>>, Seq<char>> {
    match raw {
        RawEvent::Declaration { encoding, .. } => encoding,
        _ => Ok(None),
    }
}

/// The standalone flag that a declaration gives, none for other events.
pub open spec fn standalone_in(raw: RawEvent) -> Result<Option<Seq<u8>>, Seq<char>> {
    match raw {
        RawEvent::Declaration { standalone, .. } => standalone,
        _ => Ok(None),
    }
}

/// What a read of the tokenizer returned, by what the event holds.
pub open spec fn event_read(read: Result<quick_xml::events::Event, String>) -> Result<
    RawEvent,
    Seq<char>,
> {
    match read {
        Ok(event) => Ok(event_held(event)),
        Err(m) => Err(m@),
    }
}

/// Bytes that were read, or the message, as plain values.
pub open spec fn bytes_read(read: Result<Vec<u8>, String>) -> Result<Seq<u8>, Seq<char>> {
    match read {
        Ok(b) => Ok(b@),
        Err(m) => Err(m@),
    }
}

/// Bytes that were read if there were any, or the message, as plain
/// values.
pub open spec fn bytes_if_any_read(read: Result<Option<Vec<u8>>, String>) -> Result<
    Option<Seq<u8>>,
    Seq<char>,
> {
    match read {
        Ok(Some(b)) => Ok(Some(b@)),
        Ok(None) => Ok(None),
        Err(m) => Err(m@),
    }
}

/// Keys and values as plain values.
pub open spec fn pair_views(pairs: Seq<(Vec<u8>, Vec<u8>)>) -> Seq<(Seq<u8>, Seq<u8>)> {
    Seq::new(pairs.len(), |i: int| (pairs[i].0@, pairs[i].1@))
}

/// Keys and values that were read, or the message, as plain values.
pub open spec fn pairs_read(read: Result<Vec<(Vec<u8>, Vec<u8>)>, String>) -> Result<
    Seq<(Seq<u8>, Seq<u8>)>,
    Seq<char>,
> {
    match read {
        Ok(pairs) => Ok(pair_views(pairs@)),
        Err(m) => Err(m@),
    }
}

/// `Reader::from_reader`: a tokenizer at the beginning of `data`. The
/// contract gives what its reads will return a name over the bytes.
#[verifier::external_body]
fn open_reader<'a>(data: &'a [u8]) -> (reader: quick_xml::Reader<&'a [u8]>)
    ensures
        forall|k: nat| #[trigger] events_ahead(reader, k) == tokenized(data@, k),
{
    quick_xml::Reader::from_reader(data)
}

/// `Reader::read_event`, and `Reader::buffer_position` after it: the next
/// event of the markup, or the `Display` text of what is wrong with it, and
/// the offset that the tokenizer has reached. The contract claims that this
/// is the first of the reads that were ahead, and that the others are
/// still ahead, in their order.
#[verifier::external_body]
fn read_event<'a>(reader: &mut quick_xml::Reader<&'a [u8]>) -> (read: (
    Result<quick_xml::events::Event<'a>, String>,
    u64,
))
    ensures
        event_read(read.0) == events_ahead(*old(reader), 0).event,
        read.1 == events_ahead(*old(reader), 0).end,
        forall|k: nat| #[trigger]
            events_ahead(*final(reader), k) == events_ahead(*old(reader), (k + 1) as nat),
{
    let event = reader.read_event().map_err(|e| e.to_string());
    (event, reader.buffer_position())
}

/// Tells the variants of `quick_xml::events::Event` apart, with the kinds
/// that no parser reads taken together: the kind of the event.
#[verifier::external_body]
fn markup_of(event: &quick_xml::events::Event) -> (kind: Markup)
    ensures
        kind == markup_in(event_held(*event)),
{
    match event {
        quick_xml::events::Event::Start(_) => Markup::Start,
        quick_xml::events::Event::End(_) => Markup::End,
        quick_xml::events::Event::Empty(_) => Markup::Empty,
        quick_xml::events::Event::Text(_) => Markup::Text,
        quick_xml::events::Event::CData(_) => Markup::Other,
        quick_xml::events::Event::Comment(_) => Markup::Other,
        quick_xml::events::Event::Decl(_) => Markup::Declaration,
        quick_xml::events::Event::PI(_) => Markup::Other,
        quick_xml::events::Event::DocType(_) => Markup::Other,
        quick_xml::events::Event::Eof => Markup::Eof,
    }
}

/// `BytesStart::name` and `BytesEnd::name`: the bytes of the name of a tag,
/// none for other events.
#[verifier::external_body]
fn name_of(event: &quick_xml::events::Event) -> (name: Vec<u8>)
    ensures
        name@ == name_in(event_held(*event)),
{
    match event {
        quick_xml::events::Event::Start(e) => e.name().into_inner().to_vec(),
        quick_xml::events::Event::Empty(e) => e.name().into_inner().to_vec(),
        quick_xml::events::Event::End(e) => e.name().into_inner().to_vec(),
        _ => Vec::new(),
    }
}

/// `BytesStart::attributes`: the bytes of the keys and of the values of the
/// attributes of a tag in the order written, or the `Display` text of what
/// is wrong with the attribute list. None for other events.
#[verifier::external_body]
fn attributes_of(event: &quick_xml::events::Event) -> (pairs: Result<
    Vec<(Vec<u8>, Vec<u8>)>,
    String,
>)
    ensures
        pairs_read(pairs) == attributes_in(event_held(*event)),
{
    let found = match event {
        quick_xml::events::Event::Start(e) => e.attributes(),
        quick_xml::events::Event::Empty(e) => e.attributes(),
        _ => return Ok(Vec::new()),
    };
    let pairs = found.map(|a| a.map(|a| (a.key.into_inner().to_vec(), a.value.into_owned())));
    pairs.collect::<Result<Vec<_>, _>>().map_err(|e| quick_xml::Error::from(e).to_string())
}

/// `Attributes::new` on the content of a declaration, from after its first
/// three bytes and with no check for keys that come twice, as the
/// declaration reads itself: the bytes of the keys and of the values of the
/// attributes of the declaration in the order written, or the `Display`
/// text of what is wrong with them. None for other events.
#[verifier::external_body]
fn declared_attributes_of(event: &quick_xml::events::Event) -> (pairs: Result<
    Vec<(Vec<u8>, Vec<u8>)>,
    String,
>)
    ensures
        pairs_read(pairs) == declared_in(event_held(*event)),
{
    let content = match event {
        quick_xml::events::Event::Decl(d) => std::str::from_utf8(d).map_err(|e| e.to_string())?,
        _ => return Ok(Vec::new()),
    };
    let mut found = quick_xml::events::attributes::Attributes::new(content, 3);
    let pairs = found.with_checks(false).map(
        |a| a.map(|a| (a.key.into_inner().to_vec(), a.value.into_owned())),
    );
    pairs.collect::<Result<Vec<_>, _>>().map_err(|e| quick_xml::Error::from(e).to_string())
}

/// `BytesText`, by its bytes: the content of a text event, none for other
/// events.
#[verifier::external_body]
fn text_of(event: &quick_xml::events::Event) -> (content: Vec<u8>)
    ensures
        content@ == content_in(event_held(*event)),
{
    match event {
        quick_xml::events::Event::Text(t) => t.to_vec(),
        _ => Vec::new(),
    }
}

/// `BytesDecl::version`: the bytes of the version that a declaration gives,
/// or the `Display` text of what is wrong with the declaration; none for
/// other events.
#[verifier::external_body]
fn version_of(event: &quick_xml::events::Event) -> (version: Result<Vec<u8>, String>)
    ensures
        bytes_read(version) == version_in(event_held(*event)),
{
    match event {
        quick_xml::events::Event::Decl(d) => match d.version() {
            Ok(v) => Ok(v.into_owned()),
            Err(e) => Err(e.to_string()),
        },
        _ => Ok(Vec::new()),
    }
}

/// `BytesDecl::encoding`: the bytes of the encoding that a declaration
/// gives, if it gives one, or the `Display` text of what is wrong with it.
#[verifier::external_body]
fn encoding_of(event: &quick_xml::events::Event) -> (encoding: Result<Option<Vec<u8>>, String>)
    ensures
        bytes_if_any_read(encoding) == encoding_in(event_held(*event)),
{
    match event {
        quick_xml::events::Event::Decl(d) => match d.encoding() {
            Some(Ok(e)) => Ok(Some(e.into_owned())),
            Some(Err(e)) => Err(quick_xml::Error::from(e).to_string()),
            None => Ok(None),
        },
        _ => Ok(None),
    }
}

/// `BytesDecl::standalone`: the bytes of the standalone flag that a
/// declaration gives, if it gives one, or the `Display` text of what is
/// wrong with it.
#[verifier::external_body]
fn standalone_of(event: &quick_xml::events::Event) -> (standalone: Result<
    Option<Vec<u8>>,
    String,
>)
    ensures
        bytes_if_any_read(standalone) == standalone_in(event_held(*event)),
{
    match event {
        quick_xml::events::Event::Decl(d) => match d.standalone() {
            Some(Ok(e)) => Ok(Some(e.into_owned())),
            Some(Err(e)) => Err(quick_xml::Error::from(e).to_string()),
            None => Ok(None),
        },
        _ => Ok(None),
    }
}

/// What `quick_xml` says of bytes that are not text in UTF-8.
pub uninterp spec fn decode_fault(bytes: Seq<u8>) -> Seq<char>;

/// `Decoder::decode` of a tokenizer that was given no other encoding:
/// `bytes` as text where they are valid UTF-8, and the `Display` text of the
/// error where they are not. The contract claims that the text is the one
/// that the bytes encode, and gives the error's text a name.
#[verifier::external_body]
pub(crate) fn decode(bytes: &[u8]) -> (text: Result<String, String>)
    ensures
        text matches Ok(t) ==> vstd::utf8::valid_utf8(bytes@) && t@ == vstd::utf8::decode_utf8(
            bytes@,
        ),
        text matches Err(m) ==> !vstd::utf8::valid_utf8(bytes@) && m@ == decode_fault(bytes@),
{
    match quick_xml::Reader::from_reader(bytes).decoder().decode(bytes) {
        Ok(t) => Ok(t.into_owned()),
        Err(e) => Err(format!("{}", quick_xml::Error::from(e))),
    }
}

/// Is the character white space, as Unicode defines it?
pub open spec fn is_white_space(c: char) -> bool {
    let u = c as u32;
    (0x09 <= u <= 0x0D) || u == 0x20 || u == 0x85 || u == 0xA0 || u == 0x1680 || (0x2000 <= u
        <= 0x200A) || u == 0x2028 || u == 0x2029 || u == 0x202F || u == 0x205F || u == 0x3000
}

/// The index from `from` on at which the white space ends: that of the
/// first character that is no white space, or the length of the text.
pub open spec fn white_space_end(text: Seq<char>, from: int) -> int
    decreases text.len() - from,
{
    if from >= text.len() {
        text.len() as int
    } else if !is_white_space(text[from]) {
        from
    } else {
        white_space_end(text, from + 1)
    }
}

/// The index up to `to` at which the white space at the end begins: the one
/// after the last character that is no white space, or 0.
pub open spec fn white_space_start(text: Seq<char>, to: int) -> int
    decreases to,
{
    if to <= 0 {
        0
    } else if !is_white_space(text[to - 1]) {
        to
    } else {
        white_space_start(text, to - 1)
    }
}

/// `text` without the white space at its beginning and at its end.
pub open spec fn trimmed(text: Seq<char>) -> Seq<char> {
    let start = white_space_end(text, 0);
    let end = white_space_start(text, text.len() as int);
    if start >= end {
        Seq::empty()
    } else {
        text.subrange(start, end)
    }
}

/// `str::trim`: the text without leading and trailing white space, as
/// Unicode defines white space.
#[verifier::external_body]
pub(crate) fn trim(text: &str) -> (inner: String)
    ensures
        inner@ == trimmed(text@),
{
    text.trim().to_string()
}

/// Does the event end the list of events?
pub open spec fn is_final(event: XmlEvent) -> bool {
    event is Eof || event is Malformed
}

/// The events of a document as the tokenizer gives them: there is at least
/// one, the last of them is the end of the document or broken markup and no
/// other is, and each ends after the one before it and within the document.
pub open spec fn tokens_in_step(tokens: Seq<Token>, size: int) -> bool {
    &&& tokens.len() > 0
    &&& is_final(tokens[tokens.len() - 1].event)
    &&& forall|i: int| 0 <= i < tokens.len() - 1 ==> !is_final((#[trigger] tokens[i]).event)
    &&& forall|i: int| 0 <= i < tokens.len() ==> (#[trigger] tokens[i]).end <= size
    &&& forall|i: int, j: int|
        0 <= i && j == i + 1 && j < tokens.len() - 1 ==> (#[trigger] tokens[i]).end < (
        #[trigger] tokens[j]).end
}

/// The text that `bytes` are, or what the tokenizer says of bytes that are
/// none.
pub open spec fn decoded(bytes: Seq<u8>) -> Result<Seq<char>, Seq<char>> {
    if vstd::utf8::valid_utf8(bytes) {
        Ok(vstd::utf8::decode_utf8(bytes))
    } else {
        Err(decode_fault(bytes))
    }
}

/// The text that `bytes` are, where there are any.
pub open spec fn decoded_if_any(bytes: Option<Seq<u8>>) -> Result<Option<Seq<char>>, Seq<char>> {
    match bytes {
        None => Ok(None),
        Some(b) => match decoded(b) {
            Ok(t) => Ok(Some(t)),
            Err(m) => Err(m),
        },
    }
}

/// The first `n` of the attributes as text: each key and then its value,
/// in the order written. The first of these that is no text makes the
/// failure.
pub open spec fn decoded_pairs(pairs: Seq<(Seq<u8>, Seq<u8>)>, n: int) -> Result<
    Seq<AttributeView>,
    Seq<char>,
>
    decreases n,
{
    if n <= 0 {
        Ok(Seq::empty())
    } else {
        match decoded_pairs(pairs, n - 1) {
            Err(m) => Err(m),
            Ok(before) => match decoded(pairs[n - 1].0) {
                Err(m) => Err(m),
                Ok(name) => match decoded(pairs[n - 1].1) {
                    Err(m) => Err(m),
                    Ok(value) => Ok(before.push(AttributeView { name, value })),
                },
            },
        }
    }
}

/// Once an attribute has failed to be text, the attributes after it change
/// nothing.
pub proof fn lemma_decoding_failure_lasts(pairs: Seq<(Seq<u8>, Seq<u8>)>, k: int, n: int)
    requires
        k <= n,
        decoded_pairs(pairs, k) is Err,
    ensures
        decoded_pairs(pairs, n) == decoded_pairs(pairs, k),
    decreases n - k,
{
    if k < n {
        lemma_decoding_failure_lasts(pairs, k, n - 1);
    }
}

/// The attributes as text, or what keeps the first of them that is no text
/// from being text.
fn decoded_attributes(pairs: &Vec<(Vec<u8>, Vec<u8>)>) -> (decoded: Result<Vec<Attribute>, String>)
    ensures
        decoded matches Ok(attributes) ==> decoded_pairs(
            pair_views(pairs@),
            pairs@.len() as int,
        ) == Ok::<Seq<AttributeView>, Seq<char>>(attribute_views(attributes@)),
        decoded matches Err(m) ==> decoded_pairs(pair_views(pairs@), pairs@.len() as int) == Err::<
            Seq<AttributeView>,
            Seq<char>,
        >(m@),
{
    let n: usize = pairs.len();
    let ghost plain = pair_views(pairs@);
    let mut attributes: Vec<Attribute> = Vec::new();
    let mut i: usize = 0;
    proof {
        assert(attribute_views(attributes@) =~= Seq::<AttributeView>::empty());
    }
    while i < n
        invariant
            n == pairs@.len(),
            plain == pair_views(pairs@),
            i <= n,
            decoded_pairs(plain, i as int) == Ok::<Seq<AttributeView>, Seq<char>>(
                attribute_views(attributes@),
            ),
        decreases n - i,
    {
        let pair: &(Vec<u8>, Vec<u8>) = &pairs[i];
        proof {
            assert(plain[i as int] == (pair.0@, pair.1@));
        }
        let name: String = match decode(pair.0.as_slice()) {
            Ok(t) => t,
            Err(m) => {
                proof {
                    lemma_decoding_failure_lasts(plain, i + 1, n as int);
                }
                return Err(m);
            },
        };
        let value: String = match decode(pair.1.as_slice()) {
            Ok(t) => t,
            Err(m) => {
                proof {
                    lemma_decoding_failure_lasts(plain, i + 1, n as int);
                }
                return Err(m);
            },
        };
        let ghost before = attributes@;
        let attribute: Attribute = Attribute { name, value };
        attributes.push(attribute);
        proof {
            assert(attribute_views(attributes@) =~= attribute_views(before).push(attribute@));
        }
        i += 1;
    }
    Ok(attributes)
}

/// What reading the attributes of a tag has come to: the attributes as
/// text, or what is wrong with the list or keeps an attribute from being
/// text.
pub open spec fn attributes_outcome(
    attributes: Result<Seq<(Seq<u8>, Seq<u8>)>, Seq<char>>,
) -> Result<Seq<AttributeView>, Seq<char>> {
    match attributes {
        Ok(pairs) => decoded_pairs(pairs, pairs.len() as int),
        Err(m) => Err(m),
    }
}

/// The attributes as text that were read, or what is wrong with them.
fn attributes_from(attributes: Result<Vec<(Vec<u8>, Vec<u8>)>, String>) -> (read: Result<
    Vec<Attribute>,
    String,
>)
    ensures
        read matches Ok(a) ==> attributes_outcome(pairs_read(attributes)) == Ok::<
            Seq<AttributeView>,
            Seq<char>,
        >(attribute_views(a@)),
        read matches Err(m) ==> attributes_outcome(pairs_read(attributes)) == Err::<
            Seq<AttributeView>,
            Seq<char>,
        >(m@),
{
    match attributes {
        Ok(pairs) => decoded_attributes(&pairs),
        Err(m) => Err(m),
    }
}

/// The element has the name `name` and what reading its attributes has come
/// to: the attributes, or none of them and the fault.
pub open spec fn is_element(
    element: Element,
    name: Seq<char>,
    outcome: Result<Seq<AttributeView>, Seq<char>>,
) -> bool {
    &&& element.name@ == name
    &&& match outcome {
        Ok(attributes) => element.fault is None && attribute_views(element.attributes@)
            == attributes,
        Err(m) => element.attributes@.len() == 0 && (element.fault matches Some(f) && f@ == m),
    }
}

/// A tag from the bytes of its name and what reading its attributes has
/// come to: a start tag or an empty-element tag with its name and its
/// attributes as text, or broken markup where its name is no text.
fn element_of(
    name: &Vec<u8>,
    attributes: Result<Vec<(Vec<u8>, Vec<u8>)>, String>,
    empty: bool,
) -> (taken: XmlEvent)
    ensures
        match decoded(name@) {
            Err(m) => taken matches XmlEvent::Malformed(x) && x@ == m,
            Ok(n) => if empty {
                taken matches XmlEvent::Empty(e) && is_element(
                    e,
                    n,
                    attributes_outcome(pairs_read(attributes)),
                )
            } else {
                taken matches XmlEvent::Start(e) && is_element(
                    e,
                    n,
                    attributes_outcome(pairs_read(attributes)),
                )
            },
        },
{
    match decode(name.as_slice()) {
        Ok(name) => {
            let element: Element = match attributes_from(attributes) {
                Ok(attributes) => Element { name, attributes, fault: None },
                Err(m) => Element { name, attributes: Vec::new(), fault: Some(m) },
            };
            if empty {
                XmlEvent::Empty(element)
            } else {
                XmlEvent::Start(element)
            }
        },
        Err(m) => XmlEvent::Malformed(m),
    }
}

/// An end tag from the bytes of its name, or broken markup where the name
/// is no text.
fn end_of(name: &Vec<u8>) -> (taken: XmlEvent)
    ensures
        match decoded(name@) {
            Ok(n) => taken matches XmlEvent::End(x) && x@ == n,
            Err(m) => taken matches XmlEvent::Malformed(x) && x@ == m,
        },
{
    match decode(name.as_slice()) {
        Ok(name) => XmlEvent::End(name),
        Err(m) => XmlEvent::Malformed(m),
    }
}

/// Text from its bytes, or the mark that the bytes are no text.
fn text_event(bytes: &Vec<u8>) -> (taken: XmlEvent)
    ensures
        match decoded(bytes@) {
            Ok(t) => taken matches XmlEvent::Text(x) && x@ == t,
            Err(m) => taken matches XmlEvent::Undecodable(x) && x@ == m,
        },
{
    match decode(bytes.as_slice()) {
        Ok(text) => XmlEvent::Text(text),
        Err(m) => XmlEvent::Undecodable(m),
    }
}

/// Bytes that may be missing as text.
fn decoded_option(bytes: Option<Vec<u8>>) -> (text: Result<Option<String>, String>)
    ensures
        text matches Ok(t) ==> decoded_if_any(bytes_if_any(bytes)) == Ok::<
            Option<Seq<char>>,
            Seq<char>,
        >(crate::model::text_of(t)),
        text matches Err(m) ==> decoded_if_any(bytes_if_any(bytes)) == Err::<
            Option<Seq<char>>,
            Seq<char>,
        >(m@),
{
    match bytes {
        Some(b) => match decode(b.as_slice()) {
            Ok(t) => Ok(Some(t)),
            Err(m) => Err(m),
        },
        None => Ok(None),
    }
}

/// Bytes that may be missing, as plain values.
pub open spec fn bytes_if_any(bytes: Option<Vec<u8>>) -> Option<Seq<u8>> {
    match bytes {
        Some(b) => Some(b@),
        None => None,
    }
}

/// Is this the name of one of the three things that a declaration gives?
pub open spec fn is_declared_name(name: Seq<char>) -> bool {
    name == "version"@ || name == "encoding"@ || name == "standalone"@
}

/// Those of the first `n` attributes of a declaration that are none of the
/// three things that a declaration gives, in their order.
pub open spec fn others_among(pairs: Seq<AttributeView>, n: int) -> Seq<AttributeView>
    decreases n,
{
    if n <= 0 {
        Seq::empty()
    } else if is_declared_name(pairs[n - 1].name) {
        others_among(pairs, n - 1)
    } else {
        others_among(pairs, n - 1).push(pairs[n - 1])
    }
}

/// What a declaration gives.
pub struct Declared {
    pub version: Seq<char>,
    pub encoding: Option<Seq<char>>,
    pub standalone: Option<Seq<char>>,
    /// The attributes that are none of these three.
    pub others: Seq<AttributeView>,
}

/// What a declaration gives, from what the tokenizer has made of its
/// version, its encoding, its standalone flag and its attributes: these as
/// text, or the first thing wrong, going from the version to the encoding
/// to the standalone flag to the attributes.
pub open spec fn declared(
    version: Result<Seq<u8>, Seq<char>>,
    encoding: Result<Option<Seq<u8>>, Seq<char>>,
    standalone: Result<Option<Seq<u8>>, Seq<char>>,
    attributes: Result<Seq<(Seq<u8>, Seq<u8>)>, Seq<char>>,
) -> Result<Declared, Seq<char>> {
    match version {
        Err(m) => Err(m),
        Ok(v) => match decoded(v) {
            Err(m) => Err(m),
            Ok(version_text) => match encoding {
                Err(m) => Err(m),
                Ok(e) => match decoded_if_any(e) {
                    Err(m) => Err(m),
                    Ok(encoding_text) => match standalone {
                        Err(m) => Err(m),
                        Ok(s) => match decoded_if_any(s) {
                            Err(m) => Err(m),
                            Ok(standalone_text) => match attributes_outcome(attributes) {
                                Err(m) => Err(m),
                                Ok(all) => Ok(
                                    Declared {
                                        version: version_text,
                                        encoding: encoding_text,
                                        standalone: standalone_text,
                                        others: others_among(all, all.len() as int),
                                    },
                                ),
                            },
                        },
                    },
                },
            },
        },
    }
}

/// The declaration holds what `given` gives.
pub open spec fn holds(tag: DeclarationTag, given: Declared) -> bool {
    &&& tag.version@ == given.version
    &&& crate::model::text_of(tag.encoding) == given.encoding
    &&& crate::model::text_of(tag.standalone) == given.standalone
    &&& attribute_views(tag.others@) == given.others
}

/// Those of the attributes of a declaration that are none of the three
/// things that a declaration gives.
fn others_of(attributes: Vec<Attribute>) -> (others: Vec<Attribute>)
    ensures
        attribute_views(others@) == others_among(
            attribute_views(attributes@),
            attributes@.len() as int,
        ),
{
    let n: usize = attributes.len();
    let mut others: Vec<Attribute> = Vec::new();
    let mut i: usize = 0;
    proof {
        assert(attribute_views(others@) =~= Seq::<AttributeView>::empty());
    }
    while i < n
        invariant
            n == attributes@.len(),
            i <= n,
            attribute_views(others@) == others_among(attribute_views(attributes@), i as int),
        decreases n - i,
    {
        let a: &Attribute = &attributes[i];
        let name: &str = a.name.as_str();
        if !(str_eq(name, "version") || str_eq(name, "encoding") || str_eq(name, "standalone")) {
            let ghost before = others@;
            let other: Attribute = Attribute { name: a.name.clone(), value: a.value.clone() };
            others.push(other);
            proof {
                assert(attribute_views(others@) =~= attribute_views(before).push(a@));
            }
        }
        i += 1;
    }
    others
}

/// Fills a declaration with what it gives, or leaves it as it is and
/// returns the first thing wrong with it, going from the version to the
/// encoding to the standalone flag to the attributes.
fn read_declaration(
    version: Result<Vec<u8>, String>,
    encoding: Result<Option<Vec<u8>>, String>,
    standalone: Result<Option<Vec<u8>>, String>,
    attributes: Result<Vec<(Vec<u8>, Vec<u8>)>, String>,
    tag: &mut DeclarationTag,
) -> (done: Result<(), String>)
    ensures
        done is Ok ==> (declared(
            bytes_read(version),
            bytes_if_any_read(encoding),
            bytes_if_any_read(standalone),
            pairs_read(attributes),
        ) matches Ok(d) && holds(*final(tag), d)),
        done is Ok ==> final(tag).fault == old(tag).fault,
        done matches Err(m) ==> declared(
            bytes_read(version),
            bytes_if_any_read(encoding),
            bytes_if_any_read(standalone),
            pairs_read(attributes),
        ) == Err::<Declared, Seq<char>>(m@) && *final(tag) == *old(tag),
{
    let version_text: String = match version {
        Ok(bytes) => decode(bytes.as_slice())?,
        Err(m) => {
            return Err(m);
        },
    };
    let encoding_text: Option<String> = match encoding {
        Ok(bytes) => decoded_option(bytes)?,
        Err(m) => {
            return Err(m);
        },
    };
    let standalone_text: Option<String> = match standalone {
        Ok(bytes) => decoded_option(bytes)?,
        Err(m) => {
            return Err(m);
        },
    };
    let all: Vec<Attribute> = attributes_from(attributes)?;
    tag.version = version_text;
    tag.encoding = encoding_text;
    tag.standalone = standalone_text;
    tag.others = others_of(all);
    Ok(())
}

/// The declaration that its parts make: a declaration with what it gives
/// or, where something is wrong with it, one that gives nothing and has
/// the first thing wrong as its fault.
pub open spec fn is_declaration(tag: DeclarationTag, given: Result<Declared, Seq<char>>) -> bool {
    match given {
        Ok(d) => holds(tag, d) && tag.fault is None,
        Err(m) => holds(
            tag,
            Declared {
                version: Seq::empty(),
                encoding: None,
                standalone: None,
                others: Seq::empty(),
            },
        ) && (tag.fault matches Some(f) && f@ == m),
    }
}

/// A declaration from what the tokenizer has made of its version, its
/// encoding, its standalone flag and its attributes.
fn declaration_from(
    version: Result<Vec<u8>, String>,
    encoding: Result<Option<Vec<u8>>, String>,
    standalone: Result<Option<Vec<u8>>, String>,
    attributes: Result<Vec<(Vec<u8>, Vec<u8>)>, String>,
) -> (taken: XmlEvent)
    ensures
        taken matches XmlEvent::Decl(tag) && is_declaration(
            tag,
            declared(
                bytes_read(version),
                bytes_if_any_read(encoding),
                bytes_if_any_read(standalone),
                pairs_read(attributes),
            ),
        ),
{
    let mut tag: DeclarationTag = DeclarationTag {
        version: String::new(),
        encoding: None,
        standalone: None,
        others: Vec::new(),
        fault: None,
    };
    proof {
        assert(attribute_views(tag.others@) =~= Seq::<AttributeView>::empty());
    }
    match read_declaration(version, encoding, standalone, attributes, &mut tag) {
        Ok(()) => {},
        Err(m) => {
            tag.fault = Some(m);
        },
    }
    XmlEvent::Decl(tag)
}

/// The plain event is the one that the tokenizer's event makes, or broken
/// markup with the tokenizer's message: the names, the attributes and the
/// text as text, a tag whose name is no text as broken markup, and text
/// that is no text marked as such.
pub open spec fn is_event(taken: XmlEvent, raw: Result<RawEvent, Seq<char>>) -> bool {
    match raw {
        Err(m) => taken matches XmlEvent::Malformed(x) && x@ == m,
        Ok(RawEvent::Declaration { version, encoding, standalone, attributes }) => {
            taken matches XmlEvent::Decl(tag) && is_declaration(
                tag,
                declared(version, encoding, standalone, attributes),
            )
        },
        Ok(RawEvent::Start { name, attributes }) => match decoded(name) {
            Err(m) => taken matches XmlEvent::Malformed(x) && x@ == m,
            Ok(n) => taken matches XmlEvent::Start(e) && is_element(
                e,
                n,
                attributes_outcome(attributes),
            ),
        },
        Ok(RawEvent::Empty { name, attributes }) => match decoded(name) {
            Err(m) => taken matches XmlEvent::Malformed(x) && x@ == m,
            Ok(n) => taken matches XmlEvent::Empty(e) && is_element(
                e,
                n,
                attributes_outcome(attributes),
            ),
        },
        Ok(RawEvent::End { name }) => match decoded(name) {
            Err(m) => taken matches XmlEvent::Malformed(x) && x@ == m,
            Ok(n) => taken matches XmlEvent::End(x) && x@ == n,
        },
        Ok(RawEvent::Text { content }) => match decoded(content) {
            Err(m) => taken matches XmlEvent::Undecodable(x) && x@ == m,
            Ok(t) => taken matches XmlEvent::Text(x) && x@ == t,
        },
        Ok(RawEvent::Other) => taken is Other,
        Ok(RawEvent::Eof) => taken is Eof,
    }
}

/// Does the event that is made of this one end the list of events? The end
/// of the document does, and broken markup: the tokenizer's failure, and a
/// tag whose name is no text.
pub open spec fn ends_list(raw: Result<RawEvent, Seq<char>>) -> bool {
    match raw {
        Err(_) => true,
        Ok(RawEvent::Eof) => true,
        Ok(RawEvent::Start { name, .. }) => decoded(name) is Err,
        Ok(RawEvent::Empty { name, .. }) => decoded(name) is Err,
        Ok(RawEvent::End { name }) => decoded(name) is Err,
        _ => false,
    }
}

/// A declaration with what it gives. The first thing wrong with it is its
/// fault, and it then gives nothing.
fn declaration_of(event: &quick_xml::events::Event) -> (taken: XmlEvent)
    ensures
        taken is Decl,
        event_held(*event) is Declaration ==> is_event(
            taken,
            Ok::<RawEvent, Seq<char>>(event_held(*event)),
        ),
{
    declaration_from(
        version_of(event),
        encoding_of(event),
        standalone_of(event),
        declared_attributes_of(event),
    )
}

/// The plain event that an event of the tokenizer makes.
fn event_of(event: &quick_xml::events::Event) -> (taken: XmlEvent)
    ensures
        is_event(taken, Ok::<RawEvent, Seq<char>>(event_held(*event))),
{
    match markup_of(event) {
        Markup::Declaration => declaration_of(event),
        Markup::Start => element_of(&name_of(event), attributes_of(event), false),
        Markup::Empty => element_of(&name_of(event), attributes_of(event), true),
        Markup::End => end_of(&name_of(event)),
        Markup::Text => text_event(&text_of(event)),
        Markup::Other => XmlEvent::Other,
        Markup::Eof => XmlEvent::Eof,
    }
}

/// Takes the next event from the tokenizer and makes a plain event of it:
/// the event, and the offset that the tokenizer has reached with it. The
/// reads that were ahead after this one are still ahead.
fn next_event(reader: &mut quick_xml::Reader<&[u8]>) -> (taken: (XmlEvent, u64))
    ensures
        is_event(taken.0, events_ahead(*old(reader), 0).event),
        taken.1 == events_ahead(*old(reader), 0).end,
        forall|k: nat| #[trigger]
            events_ahead(*final(reader), k) == events_ahead(*old(reader), (k + 1) as nat),
{
    let read = read_event(reader);
    let event: XmlEvent = match read.0 {
        Err(m) => XmlEvent::Malformed(m),
        Ok(event) => event_of(&event),
    };
    (event, read.1)
}

/// Does the event end the list of events?
fn ends_events(event: &XmlEvent) -> (b: bool)
    ensures
        b == is_final(*event),
{
    match event {
        XmlEvent::Eof => true,
        XmlEvent::Malformed(_) => true,
        _ => false,
    }
}

/// The byte order mark that may stand before a document.
pub open spec fn has_byte_order_mark(data: Seq<u8>) -> bool {
    data.len() >= 3 && data[0] == 0xEF && data[1] == 0xBB && data[2] == 0xBF
}

/// `data` without the byte order mark that may stand before it.
pub open spec fn without_byte_order_mark(data: Seq<u8>) -> Seq<u8> {
    if has_byte_order_mark(data) {
        data.subrange(3, data.len() as int)
    } else {
        data
    }
}

/// The offset that the tokenizer has reached before its read number `i`
/// on `data`.
pub open spec fn reached_before(data: Seq<u8>, i: int) -> int {
    if i <= 0 {
        0
    } else {
        tokenized(data, (i - 1) as nat).end as int
    }
}

/// Has the tokenizer fallen out of step with its read number `i` on
/// `data`, ending an event where it cannot end: past the end of the
/// document, or no further on than the event before it?
pub open spec fn out_of_step(data: Seq<u8>, i: int) -> bool {
    let end = tokenized(data, i as nat).end as int;
    end > data.len() || end <= reached_before(data, i)
}

/// Is the event number `i` of `data` the last of its events?
pub open spec fn is_last(data: Seq<u8>, i: int) -> bool {
    ends_list(tokenized(data, i as nat).event) || out_of_step(data, i)
}

/// The token is the one that the read number `i` of the tokenizer on `data`
/// makes: the event with the offset at which it ends; for an event that
/// ends the list, the offset at which the event before it ends; and broken
/// markup at that offset where the tokenizer has fallen out of step.
pub open spec fn is_token(token: Token, data: Seq<u8>, i: int) -> bool {
    let step = tokenized(data, i as nat);
    if ends_list(step.event) {
        is_event(token.event, step.event) && token.end == reached_before(data, i)
    } else if out_of_step(data, i) {
        (token.event matches XmlEvent::Malformed(m) && m@ == "tokenizer out of step"@)
            && token.end == reached_before(data, i)
    } else {
        is_event(token.event, step.event) && token.end == step.end
    }
}

/// The tokens are the events of `data`: what the reads of the tokenizer on
/// `data` make, one for one and in their order, up to the first that ends
/// the list.
pub open spec fn are_tokens(tokens: Seq<Token>, data: Seq<u8>) -> bool {
    &&& tokens.len() > 0
    &&& is_last(data, tokens.len() - 1)
    &&& forall|i: int| 0 <= i < tokens.len() - 1 ==> !#[trigger] is_last(data, i)
    &&& forall|i: int| 0 <= i < tokens.len() ==> is_token(#[trigger] tokens[i], data, i)
}

/// An event ends the list where the event that it was made of does.
pub proof fn lemma_final_event(taken: XmlEvent, raw: Result<RawEvent, Seq<char>>)
    requires
        is_event(taken, raw),
    ensures
        is_final(taken) == ends_list(raw),
{
}

impl<'a> Document<'a> {
    /// Reads the events of the document in `data`. A byte order mark before
    /// the document is left out of it.
    ///
    /// The events are the tokenizer's. Should it fall out of step, ending an
    /// event where it cannot end, the list ends there in broken markup.
    pub fn from_slice(data: &'a [u8]) -> (doc: Self)
        ensures
            doc.data@ == without_byte_order_mark(data@),
            are_tokens(doc.tokens@, doc.data@),
            tokens_in_step(doc.tokens@, doc.data@.len() as int),
    {
        let n: usize = data.len();
        let body: &'a [u8] = if n >= 3 && data[0] == 0xEF && data[1] == 0xBB && data[2] == 0xBF {
            &data[3..n]
        } else {
            data
        };
        let size: usize = body.len();
        let mut reader = open_reader(body);
        let mut tokens: Vec<Token> = Vec::new();
        let mut reached: usize = 0;
        loop
            invariant_except_break
                forall|i: int| 0 <= i < tokens@.len() ==> !is_final((#[trigger] tokens@[i]).event),
                forall|i: int| 0 <= i < tokens@.len() ==> (#[trigger] tokens@[i]).end <= reached,
                tokens@.len() > 0 ==> tokens@[tokens@.len() - 1].end == reached,
                forall|i: int, j: int|
                    0 <= i && j == i + 1 && j < tokens@.len() ==> (#[trigger] tokens@[i]).end < (
                    #[trigger] tokens@[j]).end,
                forall|k: nat| #[trigger]
                    events_ahead(reader, k) == tokenized(body@, (k + tokens@.len()) as nat),
                reached == reached_before(body@, tokens@.len() as int),
                forall|i: int| 0 <= i < tokens@.len() ==> !#[trigger] is_last(body@, i),
                forall|i: int| 0 <= i < tokens@.len() ==> is_token(#[trigger] tokens@[i], body@, i),
            invariant
                size == body@.len(),
                reached <= size,
            ensures
                tokens_in_step(tokens@, size as int),
                are_tokens(tokens@, body@),
            decreases size - reached,
        {
            let ghost count = tokens@.len() as int;
            let ghost step = tokenized(body@, count as nat);
            proof {
                assert(events_ahead(reader, 0) == step);
            }
            let (event, position) = next_event(&mut reader);
            proof {
                lemma_final_event(event, step.event);
            }
            if ends_events(&event) {
                tokens.push(Token { event, end: reached });
                break ;
            }
            if position > size as u64 || position <= reached as u64 {
                tokens.push(
                    Token {
                        event: XmlEvent::Malformed("tokenizer out of step".to_owned()),
                        end: reached,
                    },
                );
                break ;
            }
            reached = position as usize;
            tokens.push(Token { event, end: reached });
        }
        Document { data: body, tokens }
    }

    /// Reads the events of the document in `text`.
    pub fn from_str(text: &'a str) -> (doc: Self)
        ensures
            doc.data@ == without_byte_order_mark(text.spec_bytes()),
            are_tokens(doc.tokens@, doc.data@),
            tokens_in_step(doc.tokens@, doc.data@.len() as int),
    {
        Document::from_slice(text.as_bytes())
    }
}

} // verus!
