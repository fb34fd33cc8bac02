use gapix_core::read::attributes::Attributes;
use gapix_core::error::GapixError;
use gapix_core::xml::{Document, Element, XmlEvent};

/// Often we need to get the contents of the start tag that a document
/// begins with.
fn start_parse<'a>(doc: &'a Document, pos: &mut usize) -> &'a Element {
    let start = match &doc.tokens[*pos].event {
        XmlEvent::Start(start) => start,
        XmlEvent::Empty(start) => start,
        _ => panic!("Failed to parse a start tag"),
    };
    *pos += 1;
    start
}

#[test]
fn get_works_for_extant_attributes() {
    let doc = Document::from_str(
        r#"<bounds minlat="-1.1" maxlat="1.1" minlon="-53.1111" maxlon="88.88">"#,
    );
    let mut pos = 0;
    let start = start_parse(&doc, &mut pos);
    let mut attrs = Attributes::new(start).unwrap();
    assert_eq!(attrs.len(), 4);
    let max_lat: i64 = attrs.get_decimal("maxlat", 7).unwrap();
    assert_eq!(max_lat, 11_000_000);
    assert_eq!(attrs.len(), 3);
}

#[test]
fn get_returns_error_for_non_existing_attributes() {
    let doc = Document::from_str(
        r#"<bounds minlat="-1.1" maxlat="1.1" minlon="-53.1111" maxlon="88.88">"#,
    );
    let mut pos = 0;
    let start = start_parse(&doc, &mut pos);
    let mut attrs = Attributes::new(start).unwrap();
    let result: Result<_, GapixError> = attrs.get("blah");
    match result {
        Err(GapixError::MandatoryAttributeNotFound(a)) if a == "blah" => {}
        x => panic!("Unexpected result from parse(): {:?}", x),
    };
}
