use gapix_core::error::GapixError;
use gapix_core::read::trackpoint_extensions::parse_garmin_trackpoint_extensions;
use gapix_core::read::{read_gpx_from_slice, read_gpx_from_xml_reader, read_input_file};
use gapix_core::xml::{Document, XmlEvent};

const RIDE: &str = r#"<?xml version="1.0" encoding="UTF-8"?>
<gpx creator="Garmin Connect" version="1.1"
  xmlns="http://www.topografix.com/GPX/1/1"
  xmlns:ns3="http://www.garmin.com/xmlschemas/TrackPointExtension/v1">
  <metadata>
    <link href="connect.garmin.com">
      <text>Garmin Connect</text>
    </link>
    <time>2024-09-01T05:10:44.000Z</time>
  </metadata>
  <trk>
    <name>Morning ride</name>
    <type>cycling</type>
    <trkseg>
      <trkpt lat="53.0736710" lon="-1.6026470">
        <ele>158.399993896484375</ele>
        <time>2024-09-01T05:10:44.000Z</time>
        <extensions>
          <ns3:TrackPointExtension>
            <ns3:atemp>21.5</ns3:atemp>
            <ns3:hr>98</ns3:hr>
            <ns3:cad>79</ns3:cad>
          </ns3:TrackPointExtension>
        </extensions>
      </trkpt>
      <trkpt lat="53.0736720" lon="-1.6026480">
        <ele>158.6</ele>
        <time>2024-09-01T05:10:45.000Z</time>
      </trkpt>
    </trkseg>
  </trk>
</gpx>
"#;

#[test]
fn whole_document_is_read() {
    let gpx = read_gpx_from_slice(RIDE.as_bytes()).unwrap();
    assert_eq!(gpx.declaration.version, "1.0");
    assert_eq!(gpx.declaration.encoding, Some("UTF-8".to_string()));
    assert_eq!(gpx.creator, "Garmin Connect");
    assert_eq!(gpx.version, "1.1");
    let names: Vec<_> = gpx.attributes.iter().map(|a| a.name.as_str()).collect();
    assert_eq!(names, vec!["xmlns", "xmlns:ns3"]);
    assert_eq!(gpx.metadata.links[0].href, "connect.garmin.com");
    assert_eq!(gpx.metadata.time, Some(1_725_167_444_000));
    assert_eq!(gpx.tracks.len(), 1);
    assert_eq!(gpx.tracks[0].name, Some("Morning ride".to_string()));
    let points = &gpx.tracks[0].segments[0].points;
    assert_eq!(points.len(), 2);
    assert_eq!(points[0].lat, 530_736_710);
    assert_eq!(points[0].lon, -16_026_470);
    assert_eq!(points[0].ele, Some(158_399));
    assert_eq!(points[0].time, Some(1_725_167_444_000));
    let readings = points[0].garmin_extensions.unwrap();
    assert_eq!(readings.air_temp, Some(21_500));
    assert_eq!(readings.heart_rate, Some(98));
    assert_eq!(readings.cadence, Some(79));
    assert_eq!(readings.water_temp, None);
    assert!(points[0].extensions.as_ref().unwrap().raw_xml.starts_with("<ns3:TrackPointExtension>"));
    assert!(points[0].extensions.as_ref().unwrap().raw_xml.ends_with("</ns3:TrackPointExtension>"));
    assert_eq!(points[1].garmin_extensions, None);
    assert_eq!(points[1].extensions, None);
}

#[test]
fn byte_order_mark_is_passed_over() {
    let mut bytes = vec![0xEF, 0xBB, 0xBF];
    bytes.extend_from_slice(RIDE.as_bytes());
    let doc = Document::from_slice(&bytes);
    assert_eq!(doc.data.len(), RIDE.len());
    let gpx = read_gpx_from_slice(&bytes).unwrap();
    assert_eq!(gpx.tracks[0].segments[0].points.len(), 2);
    assert!(gpx.tracks[0].segments[0].points[0]
        .extensions
        .as_ref()
        .unwrap()
        .raw_xml
        .starts_with("<ns3:TrackPointExtension>"));
}

#[test]
fn events_end_where_the_text_shows_them_to() {
    let text = "<a x=\"1\">hi<b/></a>";
    let doc = Document::from_str(text);
    let ends: Vec<_> = doc.tokens.iter().map(|t| t.end).collect();
    assert_eq!(ends, vec![9, 11, 15, 19, 19]);
    assert!(matches!(doc.tokens[0].event, XmlEvent::Start(_)));
    assert!(matches!(doc.tokens[1].event, XmlEvent::Text(_)));
    assert!(matches!(doc.tokens[2].event, XmlEvent::Empty(_)));
    assert!(matches!(doc.tokens[3].event, XmlEvent::End(_)));
    assert!(matches!(doc.tokens[4].event, XmlEvent::Eof));
    match &doc.tokens[0].event {
        XmlEvent::Start(e) => {
            assert_eq!(e.name, "a");
            assert_eq!(e.attributes.len(), 1);
            assert_eq!(e.attributes[0].name, "x");
            assert_eq!(e.attributes[0].value, "1");
            assert_eq!(e.fault, None);
        }
        _ => unreachable!(),
    }
}

#[test]
fn truncated_document_is_an_unexpected_end() {
    let cut = &RIDE[..RIDE.find("</trkseg>").unwrap()];
    match read_gpx_from_slice(cut.as_bytes()) {
        Err(GapixError::UnexpectedEof) => {}
        x => panic!("Unexpected result: {:?}", x),
    }
    let in_root = "<?xml version=\"1.0\"?><gpx creator=\"c\" version=\"1.1\"><metadata></metadata>";
    match read_gpx_from_slice(in_root.as_bytes()) {
        Err(GapixError::UnexpectedEof) => {}
        x => panic!("Unexpected result: {:?}", x),
    }
}

#[test]
fn broken_markup_is_passed_through() {
    let broken = "<?xml version=\"1.0\"?><gpx creator=\"c\" version=\"1.1\"><trk></trkseg></trk></gpx>";
    match read_gpx_from_slice(broken.as_bytes()) {
        Err(GapixError::XmlError(_)) => {}
        x => panic!("Unexpected result: {:?}", x),
    }
}

#[test]
fn document_needs_a_declaration_and_a_root() {
    match read_gpx_from_slice(b"<gpx creator=\"c\" version=\"1.1\"></gpx>") {
        Err(GapixError::ElementNotFound(name)) if name == "xml" => {}
        x => panic!("Unexpected result: {:?}", x),
    }
    match read_gpx_from_slice(b"<?xml version=\"1.0\"?>") {
        Err(GapixError::ElementNotFound(name)) if name == "gpx" => {}
        x => panic!("Unexpected result: {:?}", x),
    }
    match read_gpx_from_slice(b"<?xml version=\"1.0\"?><kml></kml>") {
        Err(GapixError::UnexpectedStartElement(name)) if name == "kml" => {}
        x => panic!("Unexpected result: {:?}", x),
    }
}

#[test]
fn root_needs_creator_and_version_and_keeps_the_rest() {
    match read_gpx_from_slice(b"<?xml version=\"1.0\"?><gpx version=\"1.1\"></gpx>") {
        Err(GapixError::MandatoryAttributeNotFound(name)) if name == "creator" => {}
        x => panic!("Unexpected result: {:?}", x),
    }
    match read_gpx_from_slice(b"<?xml version=\"1.0\"?><gpx creator=\"c\"></gpx>") {
        Err(GapixError::MandatoryAttributeNotFound(name)) if name == "version" => {}
        x => panic!("Unexpected result: {:?}", x),
    }
    let gpx =
        read_gpx_from_slice(b"<?xml version=\"1.0\"?><gpx a=\"1\" creator=\"c\" b=\"2\" version=\"1.1\"></gpx>")
            .unwrap();
    let kept: Vec<_> = gpx.attributes.iter().map(|a| (a.name.as_str(), a.value.as_str())).collect();
    assert_eq!(kept, vec![("a", "1"), ("b", "2")]);
}

#[test]
fn root_takes_no_element_that_it_does_not_know() {
    let doc = "<?xml version=\"1.0\"?><gpx creator=\"c\" version=\"1\"><foo>bar</foo></gpx>";
    match read_gpx_from_slice(doc.as_bytes()) {
        Err(GapixError::UnexpectedStartElement(name)) if name == "foo" => {}
        x => panic!("Unexpected result: {:?}", x),
    }
    let doc = "<?xml version=\"1.0\"?><gpx creator=\"c\" version=\"1\"><!-- a note -->\n</gpx>";
    assert!(read_gpx_from_slice(doc.as_bytes()).is_ok());
}

#[test]
fn text_where_a_number_should_be_is_a_parse_failure() {
    let doc = "<?xml version=\"1.0\"?><gpx creator=\"c\" version=\"1\"><wpt lat=\"1\" lon=\"2\"><ele>high</ele></wpt></gpx>";
    match read_gpx_from_slice(doc.as_bytes()) {
        Err(GapixError::ParseFailure { from, dest_type }) => {
            assert_eq!(from, "high");
            assert_eq!(dest_type, "decimal");
        }
        x => panic!("Unexpected result: {:?}", x),
    }
    let doc = "<?xml version=\"1.0\"?><gpx creator=\"c\" version=\"1\"><wpt lat=\"north\" lon=\"2\"></wpt></gpx>";
    match read_gpx_from_slice(doc.as_bytes()) {
        Err(GapixError::ParseFailure { from, .. }) if from == "north" => {}
        x => panic!("Unexpected result: {:?}", x),
    }
    let doc = "<?xml version=\"1.0\"?><gpx creator=\"c\" version=\"1\"><wpt lat=\"1\" lon=\"2\"><sat>70000</sat></wpt></gpx>";
    match read_gpx_from_slice(doc.as_bytes()) {
        Err(GapixError::ParseFailure { from, dest_type }) => {
            assert_eq!(from, "70000");
            assert_eq!(dest_type, "integer");
        }
        x => panic!("Unexpected result: {:?}", x),
    }
}

#[test]
fn element_without_text_is_missing_text() {
    let doc = "<?xml version=\"1.0\"?><gpx creator=\"c\" version=\"1\"><wpt lat=\"1\" lon=\"2\"><name></name></wpt></gpx>";
    match read_gpx_from_slice(doc.as_bytes()) {
        Err(GapixError::MissingText(_, what)) if what == "End" => {}
        x => panic!("Unexpected result: {:?}", x),
    }
}

#[test]
fn bad_time_and_bad_fix_are_told_apart() {
    let doc = "<?xml version=\"1.0\"?><gpx creator=\"c\" version=\"1\"><wpt lat=\"1\" lon=\"2\"><time>yesterday</time></wpt></gpx>";
    match read_gpx_from_slice(doc.as_bytes()) {
        Err(GapixError::DateParseFailure(_)) => {}
        x => panic!("Unexpected result: {:?}", x),
    }
    let doc = "<?xml version=\"1.0\"?><gpx creator=\"c\" version=\"1\"><wpt lat=\"1\" lon=\"2\"><fix>4d</fix></wpt></gpx>";
    match read_gpx_from_slice(doc.as_bytes()) {
        Err(GapixError::InvalidFixType(word)) if word == "4d" => {}
        x => panic!("Unexpected result: {:?}", x),
    }
}

#[test]
fn unexpected_end_tag_and_stray_markup_fail() {
    let doc = Document::from_str("<link href=\"h\"><text>t</text></oops></link>");
    let mut pos = 1;
    let start = match &doc.tokens[0].event {
        XmlEvent::Start(e) => e,
        _ => unreachable!(),
    };
    match gapix_core::read::link::parse_link(start, &doc, &mut pos) {
        Err(GapixError::XmlError(_)) | Err(GapixError::UnexpectedEndElement(_)) => {}
        x => panic!("Unexpected result: {:?}", x),
    }
    let doc = Document::from_str("<link href=\"h\"><!-- note --></link>");
    let mut pos = 1;
    let start = match &doc.tokens[0].event {
        XmlEvent::Start(e) => e,
        _ => unreachable!(),
    };
    match gapix_core::read::link::parse_link(start, &doc, &mut pos) {
        Err(GapixError::UnexpectedEvent(what)) if what == "Other" => {}
        x => panic!("Unexpected result: {:?}", x),
    }
}

#[test]
fn copyright_needs_an_author() {
    let doc = Document::from_str("<copyright><year>2024</year></copyright>");
    let mut pos = 1;
    let start = match &doc.tokens[0].event {
        XmlEvent::Start(e) => e,
        _ => unreachable!(),
    };
    match gapix_core::read::copyright::parse_copyright(start, &doc, &mut pos) {
        Err(GapixError::MandatoryElementNotFound(name)) if name == "author" => {}
        x => panic!("Unexpected result: {:?}", x),
    }
}

#[test]
fn device_readings_are_found_under_any_prefix() {
    let doc = Document::from_str(
        "<x:TrackPointExtension><x:atemp>-3.25</x:atemp><wtemp>11</wtemp><y:depth>2.5</y:depth>\
         <hr>255</hr><z:cad>0</z:cad><x:other>junk</x:other></x:TrackPointExtension>",
    );
    let readings = parse_garmin_trackpoint_extensions(&doc, 0, doc.tokens.len()).unwrap().unwrap();
    assert_eq!(readings.air_temp, Some(-3_250));
    assert_eq!(readings.water_temp, Some(11_000));
    assert_eq!(readings.depth, Some(2_500));
    assert_eq!(readings.heart_rate, Some(255));
    assert_eq!(readings.cadence, Some(0));

    let none = Document::from_str("<foo><bar>1</bar></foo>");
    assert_eq!(parse_garmin_trackpoint_extensions(&none, 0, none.tokens.len()).unwrap(), None);

    let bad = Document::from_str("<hr>256</hr>");
    match parse_garmin_trackpoint_extensions(&bad, 0, bad.tokens.len()) {
        Err(GapixError::ParseFailure { .. }) => {}
        x => panic!("Unexpected result: {:?}", x),
    }
}

#[test]
fn input_file_knows_its_name() {
    let gpx = read_input_file("rides/morning.gpx", RIDE.as_bytes(), &fitparser::from_bytes).unwrap();
    assert_eq!(gpx.filename, Some("rides/morning.gpx".to_string()));
    let gpx = read_gpx_from_xml_reader(&Document::from_str(RIDE)).unwrap();
    assert_eq!(gpx.filename, None);
}

#[test]
fn attribute_written_twice_is_broken_markup() {
    let doc = "<?xml version=\"1.0\"?><gpx creator=\"c\" version=\"1\"><wpt lat=\"1\" lat=\"2\" lon=\"3\"></wpt></gpx>";
    match read_gpx_from_slice(doc.as_bytes()) {
        Err(GapixError::XmlError(_)) => {}
        x => panic!("Unexpected result: {:?}", x),
    }
}

#[test]
fn bytes_that_are_no_text_fail_where_they_are_read() {
    let mut doc = b"<?xml version=\"1.0\"?><gpx creator=\"c\" version=\"1\"><wpt lat=\"1\" lon=\"2\"><name>".to_vec();
    doc.extend_from_slice(&[0xFF, 0xFE]);
    doc.extend_from_slice(b"</name></wpt></gpx>");
    match read_gpx_from_slice(&doc) {
        Err(GapixError::XmlError(_)) => {}
        x => panic!("Unexpected result: {:?}", x),
    }
    // Between the elements text is passed over, whatever it is.
    let mut doc = b"<?xml version=\"1.0\"?><gpx creator=\"c\" version=\"1\"><wpt lat=\"1\" lon=\"2\">".to_vec();
    doc.extend_from_slice(&[0xFF, 0xFE]);
    doc.extend_from_slice(b"<name>n</name></wpt></gpx>");
    let gpx = read_gpx_from_slice(&doc).unwrap();
    assert_eq!(gpx.waypoints[0].name, Some("n".to_string()));
}

#[test]
fn extensions_keep_nested_extensions_whole() {
    let doc = Document::from_str(
        "<extensions> <a><extensions>inner</extensions></a> <b/> </extensions><after/>",
    );
    let mut pos = 1;
    let start = match &doc.tokens[0].event {
        XmlEvent::Start(e) => e,
        _ => unreachable!(),
    };
    let ext = gapix_core::read::extensions::parse_extensions(start, &doc, &mut pos).unwrap();
    assert_eq!(ext.raw_xml, "<a><extensions>inner</extensions></a> <b/>");
    assert!(matches!(doc.tokens[pos].event, XmlEvent::Empty(_)));
    let open = Document::from_str("<extensions><a>");
    let mut pos = 1;
    let start = match &open.tokens[0].event {
        XmlEvent::Start(e) => e,
        _ => unreachable!(),
    };
    assert!(gapix_core::read::extensions::parse_extensions(start, &open, &mut pos).is_err());
}
