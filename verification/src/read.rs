//! The readers: from the events of a document, or from the messages of a
//! device file, to the track model.

pub mod attributes;
pub mod bounds;
pub mod copyright;
pub mod declaration;
pub mod email;
pub mod extensions;
pub mod fit;
pub mod gpx;
pub mod link;
pub mod metadata;
pub mod person;
pub mod route;
pub mod track;
pub mod track_segment;
pub mod trackpoint_extensions;
pub mod waypoint;
pub mod xml_reader_extensions;

use vstd::prelude::*;
use vstd::string::StringSliceAdditionalSpecFns;
use crate::error::{agrees, Failure, GapixError};
use crate::model::{Gpx, GpxView, XmlDeclaration, XmlDeclarationView};
use crate::read::attributes::{has_attribute, joined_names, lemma_no_attributes_allowed};
use crate::read::bounds::{lemma_taken_decimal, taken_decimal, DEGREE_PLACES};
use crate::read::copyright::spec_parse_copyright;
use crate::read::declaration::{parse_declaration, spec_parse_declaration};
use crate::read::extensions::spec_parse_extensions;
use crate::read::fit::{
    are_messages_of, read_fit_from_slice, read_over, spec_read_fit, FitMessage,
};
use crate::read::gpx::{parse_gpx, spec_parse_gpx};
use crate::read::metadata::spec_parse_metadata;
use crate::read::person::spec_parse_person;
use crate::read::route::spec_parse_route;
use crate::read::track::spec_parse_track;
use crate::read::track_segment::spec_parse_track_segment;
use crate::read::waypoint::spec_parse_waypoint;
use crate::read::xml_reader_extensions::{advance, token_at};
use crate::text::str_eq;
use crate::xml::{attribute_views, Element};
use crate::xml::{
    are_tokens, tokens_in_step, without_byte_order_mark, Document, Token, XmlEvent,
};

verus! {

/// The file that a document ends in, once its declaration and its root have
/// been read. Both must have been.
pub open spec fn document_end(
    declaration: Option<XmlDeclarationView>,
    gpx: Option<GpxView>,
) -> Result<
    GpxView,
    Failure,
> {
    match gpx {
        None => Err(Failure::ElementNotFound("gpx"@)),
        Some(g) => match declaration {
            None => Err(Failure::ElementNotFound("xml"@)),
            Some(d) => Ok(GpxView { declaration: d, ..g }),
        },
    }
}

/// The file that the events from `pos` on make, given the declaration and
/// the root that have been read before. A declaration and a `gpx` element
/// are read, the last of each where they come twice. Any other element is a
/// failure; whatever else stands around them is passed over.
pub open spec fn document_events(
    doc: Document,
    declaration: Option<XmlDeclarationView>,
    gpx: Option<GpxView>,
    pos: int,
) -> Result<GpxView, Failure>
    decreases doc.tokens@.len() - pos,
{
    if pos < 0 || pos >= doc.tokens@.len() {
        document_end(declaration, gpx)
    } else {
        match doc.tokens@[pos].event {
            XmlEvent::Decl(d) => match spec_parse_declaration(d) {
                Ok(v) => document_events(doc, Some(v), gpx, pos + 1),
                Err(f) => Err(f),
            },
            XmlEvent::Start(e) => if e.name@ == "gpx"@ {
                match spec_parse_gpx(e, doc, pos + 1) {
                    Ok((v, next)) => if pos < next <= doc.tokens@.len() {
                        document_events(doc, declaration, Some(v), next)
                    } else {
                        Err(Failure::UnexpectedEof)
                    },
                    Err(f) => Err(f),
                }
            } else {
                Err(Failure::UnexpectedStartElement(e.name@))
            },
            XmlEvent::Eof => document_end(declaration, gpx),
            XmlEvent::Malformed(m) => Err(Failure::XmlError(m@)),
            _ => document_events(doc, declaration, gpx, pos + 1),
        }
    }
}

/// The file that a document makes.
pub open spec fn spec_read_gpx(doc: Document) -> Result<GpxView, Failure> {
    document_events(doc, None, None, 0)
}

/// Reads a file from the events of a document.
pub fn read_gpx_from_xml_reader(doc: &Document) -> (gpx: Result<Gpx, GapixError>)
    ensures
        agrees(gpx, spec_read_gpx(*doc)),
{
    let mut xml_declaration: Option<XmlDeclaration> = None;
    let mut gpx: Option<Gpx> = None;
    let mut pos: usize = 0;
    loop
        invariant
            spec_read_gpx(*doc) == document_events(
                *doc,
                match xml_declaration {
                    Some(d) => Some(d@),
                    None => None,
                },
                match gpx {
                    Some(g) => Some(g@),
                    None => None,
                },
                pos as int,
            ),
        decreases doc.tokens@.len() - pos,
    {
        let token: Option<&Token> = token_at(doc, pos);
        advance(doc, &mut pos);
        let at_end: bool = match token {
            None => true,
            Some(t) => match &t.event {
                XmlEvent::Decl(d) => {
                    xml_declaration = Some(parse_declaration(d)?);
                    false
                },
                XmlEvent::Start(e) => {
                    if str_eq(e.name.as_str(), "gpx") {
                        gpx = Some(parse_gpx(e, doc, &mut pos)?);
                    } else {
                        return Err(GapixError::UnexpectedStartElement(e.name.clone()));
                    }
                    false
                },
                XmlEvent::Eof => true,
                XmlEvent::Malformed(m) => {
                    return Err(GapixError::XmlError(m.clone()));
                },
                _ => false,
            },
        };
        if at_end {
            // We should already have consumed the closing tag of the root,
            // so the next thing will be the end of the document.

            return match gpx {
                None => Err(GapixError::ElementNotFound("gpx".to_owned())),
                Some(mut g) => match xml_declaration {
                    None => Err(GapixError::ElementNotFound("xml".to_owned())),
                    Some(d) => {
                        g.declaration = d;
                        Ok(g)
                    },
                },
            };
        }
    }
}

/// Reads a file from the bytes of a document.
///
/// The events of the document are the tokenizer's: the file is the one that
/// they make.
pub fn read_gpx_from_slice(data: &[u8]) -> (gpx: Result<Gpx, GapixError>)
    ensures
        exists|doc: Document|
            doc.data@ == without_byte_order_mark(data@) && are_tokens(doc.tokens@, doc.data@)
                && #[trigger] agrees(gpx, spec_read_gpx(doc)),
{
    let doc: Document = Document::from_slice(data);
    read_gpx_from_xml_reader(&doc)
}

/// Does the byte part the names of a path?
pub open spec fn is_separator(b: u8) -> bool {
    b == 47 || b == 92
}

/// The byte in lower case, where it is a capital letter.
pub open spec fn lower_case(b: u8) -> u8 {
    if 65 <= b <= 90 {
        (b + 32) as u8
    } else {
        b
    }
}

/// Where the extension of the file name begins, looking back from index
/// `at`: after the last full stop of the name, unless the name begins with
/// that full stop or has none.
pub open spec fn extension_index(path: Seq<u8>, at: int) -> Option<int>
    decreases at + 1,
{
    if at < 0 || at >= path.len() || is_separator(path[at]) {
        None
    } else if path[at] == 46 {
        if at == 0 || is_separator(path[at - 1]) {
            None
        } else {
            Some(at + 1)
        }
    } else {
        extension_index(path, at - 1)
    }
}

/// Does the file name end in the extension "fit", in capitals or not?
pub open spec fn has_fit_extension(path: Seq<u8>) -> bool {
    match extension_index(path, path.len() - 1) {
        Some(i) => path.len() - i == 3 && lower_case(path[i]) == 102 && lower_case(path[i + 1])
            == 105 && lower_case(path[i + 2]) == 116,
        None => false,
    }
}

/// The byte in lower case.
fn lower(b: u8) -> (l: u8)
    ensures
        l == lower_case(b),
{
    if 65 <= b && b <= 90 {
        b + 32
    } else {
        b
    }
}

/// Tells a device file from a document by the extension of its name.
pub fn is_fit_file(input_file: &str) -> (fit: bool)
    ensures
        fit == has_fit_extension(input_file.spec_bytes()),
{
    let path: &[u8] = input_file.as_bytes();
    let n: usize = path.len();
    let mut at: usize = n;
    while at > 0
        invariant
            n == path@.len(),
            path@ == input_file.spec_bytes(),
            at <= n,
            extension_index(path@, n - 1) == extension_index(path@, at - 1),
        decreases at,
    {
        at -= 1;
        let b: u8 = path[at];
        if b == 47 || b == 92 {
            return false;
        }
        if b == 46 {
            if at == 0 || path[at - 1] == 47 || path[at - 1] == 92 {
                return false;
            }
            return n - at == 4 && lower(path[at + 1]) == 102 && lower(path[at + 2]) == 105
                && lower(path[at + 3]) == 116;
        }
    }
    false
}

/// The file that was read, knowing the name of the file it came from.
pub open spec fn named(read: GpxView, name: Seq<char>) -> GpxView {
    GpxView { filename: Some(name), ..read }
}

/// The outcome of reading an input file is the outcome `read` of reading
/// its contents: the same failure, or the file read, knowing its name.
pub open spec fn agrees_named(
    gpx: Result<Gpx, GapixError>,
    read: Result<GpxView, Failure>,
    name: Seq<char>,
) -> bool {
    match gpx {
        Ok(g) => read matches Ok(r) && g@ == named(r, name),
        Err(e) => read == Err::<GpxView, Failure>(e@),
    }
}

/// The outcome of reading a device file under its name from what the
/// decoder returned: the file that its messages make, knowing its name, or
/// its failure.
pub open spec fn read_over_named(
    gpx: Result<Gpx, GapixError>,
    outcome: Result<Vec<fitparser::FitDataRecord>, Box<fitparser::ErrorKind>>,
    name: Seq<char>,
) -> bool {
    match outcome {
        Ok(records) => exists|messages: Seq<FitMessage>|
            are_messages_of(messages, records@) && #[trigger] agrees_named(
                gpx,
                spec_read_fit(messages),
                name,
            ),
        Err(_) => gpx matches Err(e) && e@ is FitError,
    }
}

/// Reads an input file (either a device file or a document) from its
/// contents. The file type is determined by checking the extension of its
/// name: if it is "fit" the contents are read as a device file, with the
/// decoder handed in; otherwise they are taken to be a document and read as
/// such. The file read knows its name; a failure is that of reading the
/// contents.
pub fn read_input_file<
    D: Fn(&[u8]) -> Result<Vec<fitparser::FitDataRecord>, Box<fitparser::ErrorKind>>,
>(input_file: &str, contents: &[u8], decoder: &D) -> (gpx: Result<Gpx, GapixError>)
    requires
        call_requires(*decoder, (contents,)),
    ensures
        gpx matches Ok(g) ==> g@.filename == Some(input_file@),
        has_fit_extension(input_file.spec_bytes()) ==> (exists|
            outcome: Result<Vec<fitparser::FitDataRecord>, Box<fitparser::ErrorKind>>,
        |
            call_ensures(*decoder, (contents,), outcome) && #[trigger] read_over_named(
                gpx,
                outcome,
                input_file@,
            )),
        !has_fit_extension(input_file.spec_bytes()) ==> (exists|doc: Document|
            doc.data@ == without_byte_order_mark(contents@) && are_tokens(doc.tokens@, doc.data@)
                && #[trigger] agrees_named(gpx, spec_read_gpx(doc), input_file@)),
{
    if is_fit_file(input_file) {
        let read: Result<Gpx, GapixError> = read_fit_from_slice(contents, decoder);
        let ghost outcome = choose|
            outcome: Result<Vec<fitparser::FitDataRecord>, Box<fitparser::ErrorKind>>,
        |
            call_ensures(*decoder, (contents,), outcome) && #[trigger] read_over(read, outcome);
        match read {
            Ok(mut gpx) => {
                gpx.filename = Some(input_file.to_owned());
                let known: Result<Gpx, GapixError> = Ok(gpx);
                proof {
                    let records = outcome->Ok_0;
                    let messages = choose|messages: Seq<FitMessage>|
                        are_messages_of(messages, records@) && #[trigger] agrees(
                            read,
                            spec_read_fit(messages),
                        );
                    assert(agrees_named(known, spec_read_fit(messages), input_file@));
                    assert(read_over_named(known, outcome, input_file@));
                }
                known
            },
            Err(e) => {
                let failed: Result<Gpx, GapixError> = Err(e);
                proof {
                    if outcome is Ok {
                        let records = outcome->Ok_0;
                        let messages = choose|messages: Seq<FitMessage>|
                            are_messages_of(messages, records@) && #[trigger] agrees(
                                read,
                                spec_read_fit(messages),
                            );
                        assert(agrees_named(failed, spec_read_fit(messages), input_file@));
                    }
                    assert(read_over_named(failed, outcome, input_file@));
                }
                failed
            },
        }
    } else {
        // Assume a document.
        let read: Result<Gpx, GapixError> = read_gpx_from_slice(contents);
        let ghost doc = choose|doc: Document|
            doc.data@ == without_byte_order_mark(contents@) && are_tokens(doc.tokens@, doc.data@)
                && #[trigger] agrees(read, spec_read_gpx(doc));
        match read {
            Ok(mut gpx) => {
                gpx.filename = Some(input_file.to_owned());
                let known: Result<Gpx, GapixError> = Ok(gpx);
                proof {
                    assert(agrees_named(known, spec_read_gpx(doc), input_file@));
                }
                known
            },
            Err(e) => {
                let failed: Result<Gpx, GapixError> = Err(e);
                proof {
                    assert(agrees_named(failed, spec_read_gpx(doc), input_file@));
                }
                failed
            },
        }
    }
}

/// The elements that take no attributes are strict about it: whatever
/// attribute stands on the start tag of the metadata, a person, a copyright
/// notice, a route, a track, a track segment or the extensions makes the
/// failure of unexpected attributes.
pub proof fn lemma_elements_without_attributes_strict(
    start_element: Element,
    doc: Document,
    pos: int,
)
    requires
        start_element.fault is None,
        start_element.attributes@.len() > 0,
    ensures
        ({
            let f = Failure::UnexpectedAttributes {
                element: start_element.name@,
                attributes: joined_names(
                    attribute_views(start_element.attributes@),
                    start_element.attributes@.len() as int,
                ),
            };
            &&& spec_parse_metadata(start_element, doc, pos) matches Err(e) && e == f
            &&& spec_parse_person(start_element, doc, pos) matches Err(e) && e == f
            &&& spec_parse_copyright(start_element, doc, pos) matches Err(e) && e == f
            &&& spec_parse_route(start_element, doc, pos) matches Err(e) && e == f
            &&& spec_parse_track(start_element, doc, pos) matches Err(e) && e == f
            &&& spec_parse_track_segment(start_element, doc, pos) matches Err(e) && e == f
            &&& spec_parse_extensions(start_element, doc, pos) matches Err(e) && e == f
        }),
{
    lemma_no_attributes_allowed(start_element);
}

/// A point must have the attributes `lat` and `lon`: where `lat` is missing
/// the failure names it, and where `lat` is a number and `lon` is missing
/// the failure names that. And it must have no other: once the two have been
/// read as numbers, an attribute of another name makes the failure of
/// unexpected attributes.
pub proof fn lemma_waypoint_attributes_strict(
    start_element: Element,
    doc: Document,
    pos: int,
    other: Seq<char>,
)
    requires
        start_element.fault is None,
    ensures
        ({
            let pairs = attribute_views(start_element.attributes@);
            let places = DEGREE_PLACES as nat;
            &&& !has_attribute(pairs, "lat"@) ==> (spec_parse_waypoint(start_element, doc, pos)
                matches Err(e) && e == Failure::MandatoryAttributeNotFound("lat"@))
            &&& (taken_decimal(pairs, "lat"@, places) matches Ok(a) && !has_attribute(
                a.1,
                "lon"@,
            ) ==> (spec_parse_waypoint(start_element, doc, pos) matches Err(e) && e
                == Failure::MandatoryAttributeNotFound("lon"@)))
            &&& (taken_decimal(pairs, "lat"@, places) matches Ok(a) && taken_decimal(
                a.1,
                "lon"@,
                places,
            ) is Ok && has_attribute(pairs, other) && other != "lat"@ && other != "lon"@ ==> (
            spec_parse_waypoint(start_element, doc, pos) matches Err(
                Failure::UnexpectedAttributes { element, attributes },
            ) && element == start_element.name@))
        }),
{
    let pairs = attribute_views(start_element.attributes@);
    let places = DEGREE_PLACES as nat;
    lemma_taken_decimal(pairs, "lat"@, places, other);
    match taken_decimal(pairs, "lat"@, places) {
        Ok(a) => {
            lemma_taken_decimal(a.1, "lon"@, places, other);
        },
        Err(_) => {},
    }
}

} // verus!
