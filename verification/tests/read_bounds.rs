use gapix_core::read::bounds::parse_bounds;
use gapix_core::error::GapixError;
use gapix_core::xml::{Document, Element, XmlEvent};

/// Often we need to get the contents of the start tag that a document
/// begins with.
fn start_parse<'a>(doc: &'a Document, pos: &mut usize) -> &'a Element {
    let start = match &doc.tokens[*pos].event {
        XmlEvent::Start(start) => start,
        XmlEvent::Empty(start) => start,
        _ => panic!("Failed to parse a start tag"),
    };
    *pos += 1;
    start
}

#[test]
fn valid_bounds() {
    let doc = Document::from_str(
        r#"<bounds minlat="-1.1" maxlat="1.1" minlon="-53.1111" maxlon="88.88">"#,
    );
    let mut pos = 0;
    let start = start_parse(&doc, &mut pos);
    let result = parse_bounds(start).unwrap();
    assert_eq!(result.min_lat, -11_000_000);
    assert_eq!(result.max_lat, 11_000_000);
    assert_eq!(result.min_lon, -531_111_000);
    assert_eq!(result.max_lon, 888_800_000);
}

#[test]
fn missing_min_lat() {
    let doc =
        Document::from_str(r#"<bounds maxlat="1.1" minlon="-53.1111" maxlon="88.88">"#);
    let mut pos = 0;
    let start = start_parse(&doc, &mut pos);
    match parse_bounds(start) {
        Err(GapixError::MandatoryAttributeNotFound(a)) if a == "minlat" => {}
        x => panic!("Unexpected result from parse(): {:?}", x),
    };
}

#[test]
fn missing_max_lat() {
    let doc =
        Document::from_str(r#"<bounds minlat="-1.1" minlon="-53.1111" maxlon="88.88">"#);
    let mut pos = 0;
    let start = start_parse(&doc, &mut pos);
    match parse_bounds(start) {
        Err(GapixError::MandatoryAttributeNotFound(a)) if a == "maxlat" => {}
        x => panic!("Unexpected result from parse(): {:?}", x),
    };
}

#[test]
fn missing_min_lon() {
    let doc =
        Document::from_str(r#"<bounds minlat="-1.1" maxlat="1.1" maxlon="88.88">"#);
    let mut pos = 0;
    let start = start_parse(&doc, &mut pos);
    match parse_bounds(start) {
        Err(GapixError::MandatoryAttributeNotFound(a)) if a == "minlon" => {}
        x => panic!("Unexpected result from parse(): {:?}", x),
    };
}

#[test]
fn missing_max_lon() {
    let doc =
        Document::from_str(r#"<bounds minlat="-1.1" maxlat="1.1" minlon="-53.1111">"#);
    let mut pos = 0;
    let start = start_parse(&doc, &mut pos);
    match parse_bounds(start) {
        Err(GapixError::MandatoryAttributeNotFound(a)) if a == "maxlon" => {}
        x => panic!("Unexpected result from parse(): {:?}", x),
    };
}

#[test]
fn missing_all() {
    let doc = Document::from_str(r#"<bounds>"#);
    let mut pos = 0;
    let start = start_parse(&doc, &mut pos);
    let result = parse_bounds(start);
    assert!(result.is_err());
}

#[test]
fn bounds_extra_attributes() {
    let doc = Document::from_str(
        r#"<bounds minlat="-1.1" maxlat="1.1" minlon="-53.1111" maxlon="88.88" foo="bar">"#,
    );
    let mut pos = 0;
    let start = start_parse(&doc, &mut pos);
    match parse_bounds(start) {
        Err(GapixError::UnexpectedAttributes { .. }) => {}
        x => panic!("Unexpected result from parse(): {:?}", x),
    };
}

#[test]
fn invalid_min_lat() {
    let doc = Document::from_str(
        r#"<bounds minlat="360.1" maxlat="1.1" minlon="-53.1111" maxlon="88.88">"#,
    );
    let mut pos = 0;
    let start = start_parse(&doc, &mut pos);
    match parse_bounds(start) {
        Err(GapixError::InvalidLatitude(3_601_000_000)) => {}
        x => panic!("Unexpected result from parse(): {:?}", x),
    };
}

#[test]
fn invalid_max_lat() {
    let doc = Document::from_str(
        r#"<bounds minlat="-1.1" maxlat="360.1" minlon="-53.1111" maxlon="88.88">"#,
    );
    let mut pos = 0;
    let start = start_parse(&doc, &mut pos);
    match parse_bounds(start) {
        Err(GapixError::InvalidLatitude(3_601_000_000)) => {}
        x => panic!("Unexpected result from parse(): {:?}", x),
    };
}

#[test]
fn invalid_min_lon() {
    let doc = Document::from_str(
        r#"<bounds minlat="-1.1" maxlat="1.1" minlon="-5453.1111" maxlon="88.88">"#,
    );
    let mut pos = 0;
    let start = start_parse(&doc, &mut pos);
    match parse_bounds(start) {
        Err(GapixError::InvalidLongitude(-54_531_111_000)) => {}
        x => panic!("Unexpected result from parse(): {:?}", x),
    };
}

#[test]
fn invalid_max_lon() {
    let doc = Document::from_str(
        r#"<bounds minlat="-1.1" maxlat="1.1" minlon="-53.1111" maxlon="888.88">"#,
    );
    let mut pos = 0;
    let start = start_parse(&doc, &mut pos);
    match parse_bounds(start) {
        Err(GapixError::InvalidLongitude(8_888_800_000)) => {}
        x => panic!("Unexpected result from parse(): {:?}", x),
    };
}
