use chrono::DateTime;
use gapix_core::read::metadata::parse_metadata;
use gapix_core::error::GapixError;
use gapix_core::xml::{Document, Element, XmlEvent};

/// Often we need to get the contents of the start tag that a document
/// begins with.
fn start_parse<'a>(doc: &'a Document, pos: &mut usize) -> &'a Element {
    let start = match &doc.tokens[*pos].event {
        XmlEvent::Start(start) => start,
        XmlEvent::Empty(start) => start,
        _ => panic!("Failed to parse a start tag"),
    };
    *pos += 1;
    start
}

#[test]
fn valid_metadata_all_fields() {
    let doc = Document::from_str(
        r#"<metadata>
             <name>Homer Simpson</name>
             <desc>description</desc>
             <author>
                <name>Sauron</name>
                <email id="bigeye" domain="mordor.com"></email>
                <link href="http://example2.com">
                </link>
             </author>
             <copyright>
                <year>2024</year>
                <license>MIT</license>
                <author>Homer Simpson</author>
             </copyright>
             <link href="http://example.com">
                <text>Some text here</text>
                <type>jpeg</type>
             </link>
             <link href="http://example2.com">
                <text>Some text here2</text>
                <type>jpeg2</type>
             </link>
             <time>2024-02-02T10:10:54.000Z</time>
             <keywords>keyword1, keyword2</keywords>
             <bounds minlat="-1.1" maxlat="1.1" minlon="-53.1111" maxlon="88.88"></bounds>
             <extensions><foo><ex:ex1>extended data</ex:ex1></foo></extensions>
           </metadata>"#,
    );

    let mut pos = 0;
    let start = start_parse(&doc, &mut pos);
    let result = parse_metadata(start, &doc, &mut pos).unwrap();
    assert_eq!(result.name, Some("Homer Simpson".to_string()));
    assert_eq!(result.description, Some("description".to_string()));
    let author = result.author.unwrap();
    assert_eq!(author.name, Some("Sauron".to_string()));
    let email = author.email.unwrap();
    assert_eq!(email.id, "bigeye");
    assert_eq!(email.domain, "mordor.com");
    assert_eq!(author.link.unwrap().href, "http://example2.com");
    let copyright = result.copyright.unwrap();
    assert_eq!(copyright.year, Some(2024));
    assert_eq!(result.links.len(), 2);
    assert_eq!(result.links[0].href, "http://example.com");
    assert_eq!(result.links[1].href, "http://example2.com");
    assert_eq!(
        result.time,
        Some(DateTime::parse_from_rfc3339("2024-02-02T10:10:54.000Z").unwrap().to_utc().timestamp_millis())
    );
    assert_eq!(result.keywords, Some("keyword1, keyword2".to_string()));
    let bounds = result.bounds.unwrap();
    assert_eq!(bounds.min_lat, -11_000_000);
    assert_eq!(bounds.max_lat, 11_000_000);
    assert_eq!(bounds.min_lon, -531_111_000);
    assert_eq!(bounds.max_lon, 888_800_000);
    let ext = result.extensions.unwrap();
    assert_eq!(ext.raw_xml, "<foo><ex:ex1>extended data</ex:ex1></foo>");
}

#[test]
fn valid_metadata_self_closing_bounds() {
    let doc = Document::from_str(
        r#"<metadata>
             <name>Homer Simpson</name>
             <desc>description</desc>
             <author>
                <name>Sauron</name>
                <email id="bigeye" domain="mordor.com"></email>
                <link href="http://example2.com">
                </link>
             </author>
             <copyright>
                <year>2024</year>
                <license>MIT</license>
                <author>Homer Simpson</author>
             </copyright>
             <link href="http://example.com">
                <text>Some text here</text>
                <type>jpeg</type>
             </link>
             <link href="http://example2.com">
                <text>Some text here2</text>
                <type>jpeg2</type>
             </link>
             <time>2024-02-02T10:10:54.000Z</time>
             <keywords>keyword1, keyword2</keywords>
             <bounds minlat="-1.1" maxlat="1.1" minlon="-53.1111" maxlon="88.88" />
             <extensions><foo><ex:ex1>extended data</ex:ex1></foo></extensions>
           </metadata>"#,
    );

    let mut pos = 0;
    let start = start_parse(&doc, &mut pos);
    let result = parse_metadata(start, &doc, &mut pos).unwrap();
    assert_eq!(result.name, Some("Homer Simpson".to_string()));
    assert_eq!(result.description, Some("description".to_string()));
    let author = result.author.unwrap();
    assert_eq!(author.name, Some("Sauron".to_string()));
    let email = author.email.unwrap();
    assert_eq!(email.id, "bigeye");
    assert_eq!(email.domain, "mordor.com");
    assert_eq!(author.link.unwrap().href, "http://example2.com");
    let copyright = result.copyright.unwrap();
    assert_eq!(copyright.year, Some(2024));
    assert_eq!(result.links.len(), 2);
    assert_eq!(result.links[0].href, "http://example.com");
    assert_eq!(result.links[1].href, "http://example2.com");
    assert_eq!(
        result.time,
        Some(DateTime::parse_from_rfc3339("2024-02-02T10:10:54.000Z").unwrap().to_utc().timestamp_millis())
    );
    assert_eq!(result.keywords, Some("keyword1, keyword2".to_string()));
    let bounds = result.bounds.unwrap();
    assert_eq!(bounds.min_lat, -11_000_000);
    assert_eq!(bounds.max_lat, 11_000_000);
    assert_eq!(bounds.min_lon, -531_111_000);
    assert_eq!(bounds.max_lon, 888_800_000);
    let ext = result.extensions.unwrap();
    assert_eq!(ext.raw_xml, "<foo><ex:ex1>extended data</ex:ex1></foo>");
}

#[test]
fn metadata_extra_elements() {
    let doc = Document::from_str(
        r#"<metadata>
             <foo>bar</foo>
           </metadata>"#,
    );

    let mut pos = 0;
    let start = start_parse(&doc, &mut pos);
    match parse_metadata(start, &doc, &mut pos) {
        Err(GapixError::UnexpectedStartElement(_)) => {}
        x => panic!("Unexpected result from parse(): {:?}", x),
    };
}

#[test]
fn metadata_extra_attributes() {
    let doc = Document::from_str(
        r#"<metadata foo="bar">
           </metadata>"#,
    );

    let mut pos = 0;
    let start = start_parse(&doc, &mut pos);
    match parse_metadata(start, &doc, &mut pos) {
        Err(GapixError::UnexpectedAttributes { .. }) => {}
        x => panic!("Unexpected result from parse(): {:?}", x),
    };
}
