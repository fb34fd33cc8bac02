use gapix_core::read::track::parse_track;
use gapix_core::error::GapixError;
use gapix_core::xml::{Document, Element, XmlEvent};

/// Often we need to get the contents of the start tag that a document
/// begins with.
fn start_parse<'a>(doc: &'a Document, pos: &mut usize) -> &'a Element {
    let start = match &doc.tokens[*pos].event {
        XmlEvent::Start(start) => start,
        XmlEvent::Empty(start) => start,
        _ => panic!("Failed to parse a start tag"),
    };
    *pos += 1;
    start
}

#[test]
fn valid_track_all_fields() {
    let doc = Document::from_str(
        r#"<trk>
             <name>Route name</name>
             <cmt>Route comment</cmt>
             <desc>Route description</desc>
             <src>Route source</src>
             <link href="http://example.com">
                <text>Some text here</text>
                <type>jpeg</type>
             </link>
             <link href="http://example2.com">
                <text>Some text here2</text>
                <type>jpeg2</type>
             </link>
             <number>42</number>
             <type>Route type</type>
             <extensions><foo><ex:ex1>extended data</ex:ex1></foo></extensions>
             <trkseg>
                <trkpt lat="53.20625" lon="-11.450350">
                </trkpt>
                <trkpt lat="53.20625" lon="-11.450350">
                </trkpt>
             </trkseg>
             <trkseg>
                <trkpt lat="53.20625" lon="-11.450350">
                </trkpt>
             </trkseg>
           </trk>"#,
    );

    let mut pos = 0;
    let start = start_parse(&doc, &mut pos);
    let result = parse_track(start, &doc, &mut pos).unwrap();
    assert_eq!(result.name, Some("Route name".to_string()));
    assert_eq!(result.comment, Some("Route comment".to_string()));
    assert_eq!(result.description, Some("Route description".to_string()));
    assert_eq!(result.source, Some("Route source".to_string()));
    assert_eq!(result.links.len(), 2);
    assert_eq!(result.links[0].href, "http://example.com");
    assert_eq!(result.links[1].href, "http://example2.com");
    assert_eq!(result.number, Some(42));
    assert_eq!(result.type_, Some("Route type".to_string()));
    let ext = result.extensions.unwrap();
    assert_eq!(ext.raw_xml, "<foo><ex:ex1>extended data</ex:ex1></foo>");
    assert_eq!(result.segments.len(), 2);
}

#[test]
fn track_extra_elements() {
    let doc = Document::from_str(
        r#"<trk>
             <foo>bar</foo>
           </trk>"#,
    );

    let mut pos = 0;
    let start = start_parse(&doc, &mut pos);
    match parse_track(start, &doc, &mut pos) {
        Err(GapixError::UnexpectedStartElement(_)) => {}
        x => panic!("Unexpected result from parse(): {:?}", x),
    };
}

#[test]
fn track_extra_attributes() {
    let doc = Document::from_str(
        r#"<trk foo="bar">
           </trk>"#,
    );

    let mut pos = 0;
    let start = start_parse(&doc, &mut pos);
    match parse_track(start, &doc, &mut pos) {
        Err(GapixError::UnexpectedAttributes { .. }) => {}
        x => panic!("Unexpected result from parse(): {:?}", x),
    };
}

#[test]
fn track_point_beyond_the_pole_is_rejected() {
    let doc = Document::from_str(
        r#"<trk>
             <trkseg>
                <trkpt lat="253.20625" lon="-11.450350">
                </trkpt>
             </trkseg>
           </trk>"#,
    );

    let mut pos = 0;
    let start = start_parse(&doc, &mut pos);
    match parse_track(start, &doc, &mut pos) {
        Err(GapixError::InvalidLatitude(2_532_062_500)) => {}
        x => panic!("Unexpected result from parse(): {:?}", x),
    };
}
