use gapix_core::model::FixType;
use gapix_core::read::waypoint::parse_waypoint;
use gapix_core::error::GapixError;
use gapix_core::xml::{Document, Element, XmlEvent};

/// Often we need to get the contents of the start tag that a document
/// begins with.
fn start_parse<'a>(doc: &'a Document, pos: &mut usize) -> &'a Element {
    let start = match &doc.tokens[*pos].event {
        XmlEvent::Start(start) => start,
        XmlEvent::Empty(start) => start,
        _ => panic!("Failed to parse a start tag"),
    };
    *pos += 1;
    start
}

#[test]
fn valid_waypoint_all_fields() {
    let doc = Document::from_str(
        r#"<trkpt lat="55.20625" lon="-11.450350">
             <ele>158.399993896484375</ele>
             <time>2024-02-02T10:10:54.000Z</time>
             <magvar>52.3</magvar>
             <geoidheight>100.7</geoidheight>
             <name>Waypoint name</name>
             <cmt>Waypoint comment</cmt>
             <desc>Waypoint description</desc>
             <src>Waypoint source</src>
             <link href="http://example.com">
                <text>Some text here</text>
                <type>jpeg</type>
             </link>
             <link href="http://example2.com">
                <text>Some text here2</text>
                <type>jpeg2</type>
             </link>
             <sym>Waypoint symbol</sym>
             <type>Waypoint type</type>
             <fix>3d</fix>
             <sat>12</sat>
             <hdop>120.2</hdop>
             <vdop>130.3</vdop>
             <pdop>140.4</pdop>
             <ageofdgpsdata>1234.1234</ageofdgpsdata>
             <dgpsid>89</dgpsid>
             <extensions><foo><ex:ex1>extended data</ex:ex1></foo></extensions>
           </trkpt>"#,
    );

    let mut pos = 0;
    let start = start_parse(&doc, &mut pos);
    let result = parse_waypoint(start, &doc, &mut pos).unwrap();
    assert_eq!(result.lat, 552_062_500);
    assert_eq!(result.lon, -114_503_500);
    assert_eq!(result.magvar, Some(52_300));
    assert_eq!(result.geoid_height, Some(100_700));
    assert_eq!(result.name, Some("Waypoint name".to_string()));
    assert_eq!(result.comment, Some("Waypoint comment".to_string()));
    assert_eq!(result.description, Some("Waypoint description".to_string()));
    assert_eq!(result.source, Some("Waypoint source".to_string()));

    assert_eq!(result.links.len(), 2);
    assert_eq!(result.links[0].href, "http://example.com");
    assert_eq!(result.links[1].href, "http://example2.com");
    assert_eq!(result.symbol, Some("Waypoint symbol".to_string()));
    assert_eq!(result.type_, Some("Waypoint type".to_string()));
    assert_eq!(result.fix, Some(FixType::ThreeDimensional));
    assert_eq!(result.num_satellites, Some(12));
    assert_eq!(result.hdop, Some(120_200));
    assert_eq!(result.vdop, Some(130_300));
    assert_eq!(result.pdop, Some(140_400));
    assert_eq!(result.age_of_dgps_data, Some(1_234_123));
    assert_eq!(result.dgps_id, Some(89));

    let ext = result.extensions.unwrap();
    assert_eq!(ext.raw_xml, "<foo><ex:ex1>extended data</ex:ex1></foo>");
}

#[test]
fn invalid_negative_dgps_id() {
    let doc = Document::from_str(
        r#"<trkpt lat="55.20625" lon="-11.450350">
             <dgpsid>-1</dgpsid>
           </trkpt>"#,
    );

    let mut pos = 0;
    let start = start_parse(&doc, &mut pos);
    match parse_waypoint(start, &doc, &mut pos) {
        Err(GapixError::InvalidDGPSStationId(-1)) => {}
        x => panic!("Unexpected result from parse(): {:?}", x),
    };
}

#[test]
fn invalid_positive_dgps_id() {
    let doc = Document::from_str(
        r#"<trkpt lat="55.20625" lon="-11.450350">
             <dgpsid>1024</dgpsid>
           </trkpt>"#,
    );

    let mut pos = 0;
    let start = start_parse(&doc, &mut pos);
    match parse_waypoint(start, &doc, &mut pos) {
        Err(GapixError::InvalidDGPSStationId(1024)) => {}
        x => panic!("Unexpected result from parse(): {:?}", x),
    };
}

#[test]
fn invalid_magvar() {
    let doc = Document::from_str(
        r#"<trkpt lat="55.20625" lon="-11.450350">
             <magvar>360.1</magvar>
           </trkpt>"#,
    );

    let mut pos = 0;
    let start = start_parse(&doc, &mut pos);
    match parse_waypoint(start, &doc, &mut pos) {
        Err(GapixError::InvalidDegrees(360_100)) => {}
        x => panic!("Unexpected result from parse(): {:?}", x),
    };
}

#[test]
fn invalid_latitude() {
    let doc = Document::from_str(
        r#"<trkpt lat="1234" lon="-11.450350">
           </trkpt>"#,
    );

    let mut pos = 0;
    let start = start_parse(&doc, &mut pos);
    match parse_waypoint(start, &doc, &mut pos) {
        Err(GapixError::InvalidLatitude(12_340_000_000)) => {}
        x => panic!("Unexpected result from parse(): {:?}", x),
    };
}

#[test]
fn invalid_longitude() {
    let doc = Document::from_str(
        r#"<trkpt lat="34" lon="-1111.45">
           </trkpt>"#,
    );

    let mut pos = 0;
    let start = start_parse(&doc, &mut pos);
    match parse_waypoint(start, &doc, &mut pos) {
        Err(GapixError::InvalidLongitude(-11_114_500_000)) => {}
        x => panic!("Unexpected result from parse(): {:?}", x),
    };
}

#[test]
fn waypoint_extra_elements() {
    let doc = Document::from_str(
        r#"<trkpt lat="55.20625" lon="-11.450350">
             <foo>bar</foo>
           </trkpt>"#,
    );

    let mut pos = 0;
    let start = start_parse(&doc, &mut pos);
    match parse_waypoint(start, &doc, &mut pos) {
        Err(GapixError::UnexpectedStartElement(_)) => {}
        x => panic!("Unexpected result from parse(): {:?}", x),
    };
}

#[test]
fn waypoint_extra_attributes() {
    let doc = Document::from_str(
        r#"<trkpt lat="55.20625" lon="-11.450350" foo="bar">
           </trkpt>"#,
    );

    let mut pos = 0;
    let start = start_parse(&doc, &mut pos);
    match parse_waypoint(start, &doc, &mut pos) {
        Err(GapixError::UnexpectedAttributes { .. }) => {}
        x => panic!("Unexpected result from parse(): {:?}", x),
    };
}
