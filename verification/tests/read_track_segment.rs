use gapix_core::read::track_segment::parse_track_segment;
use gapix_core::error::GapixError;
use gapix_core::xml::{Document, Element, XmlEvent};

/// Often we need to get the contents of the start tag that a document
/// begins with.
fn start_parse<'a>(doc: &'a Document, pos: &mut usize) -> &'a Element {
    let start = match &doc.tokens[*pos].event {
        XmlEvent::Start(start) => start,
        XmlEvent::Empty(start) => start,
        _ => panic!("Failed to parse a start tag"),
    };
    *pos += 1;
    start
}

#[test]
fn valid_track_segment_all_fields() {
    let doc = Document::from_str(
        r#"<trkseg>
             <extensions><foo><ex:ex1>extended data</ex:ex1></foo></extensions>
           </trkseg>"#,
    );

    let mut pos = 0;
    let start = start_parse(&doc, &mut pos);
    let result = parse_track_segment(start, &doc, &mut pos).unwrap();
    let ext = result.extensions.unwrap();
    assert_eq!(ext.raw_xml, "<foo><ex:ex1>extended data</ex:ex1></foo>");
}

#[test]
fn track_segment_extra_elements() {
    let doc = Document::from_str(
        r#"<trkseg>
             <foo>bar</foo>
           </trkseg>"#,
    );

    let mut pos = 0;
    let start = start_parse(&doc, &mut pos);
    match parse_track_segment(start, &doc, &mut pos) {
        Err(GapixError::UnexpectedStartElement(_)) => {}
        x => panic!("Unexpected result from parse(): {:?}", x),
    };
}

#[test]
fn track_segment_extra_attributes() {
    let doc = Document::from_str(
        r#"<trkseg foo="bar">
           </trkseg>"#,
    );

    let mut pos = 0;
    let start = start_parse(&doc, &mut pos);
    match parse_track_segment(start, &doc, &mut pos) {
        Err(GapixError::UnexpectedAttributes { .. }) => {}
        x => panic!("Unexpected result from parse(): {:?}", x),
    };
}
