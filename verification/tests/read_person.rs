use gapix_core::read::person::parse_person;
use gapix_core::error::GapixError;
use gapix_core::xml::{Document, Element, XmlEvent};

/// Often we need to get the contents of the start tag that a document
/// begins with.
fn start_parse<'a>(doc: &'a Document, pos: &mut usize) -> &'a Element {
    let start = match &doc.tokens[*pos].event {
        XmlEvent::Start(start) => start,
        XmlEvent::Empty(start) => start,
        _ => panic!("Failed to parse a start tag"),
    };
    *pos += 1;
    start
}

#[test]
fn valid_person_all_fields() {
    let doc = Document::from_str(
        r#"<person>
             <name>Homer Simpson</name>
             <email id="phil" domain="gmail.com"></email>
             <link href="http://example.com">
                <text>Some text here</text>
                <type>jpeg</type>
            </link>
           </person>"#,
    );

    let mut pos = 0;
    let start = start_parse(&doc, &mut pos);
    let result = parse_person(start, &doc, &mut pos).unwrap();
    assert_eq!(result.name, Some("Homer Simpson".to_string()));
    let email = result.email.unwrap();
    assert_eq!(email.id, "phil");
    assert_eq!(email.domain, "gmail.com");
    let link = result.link.unwrap();
    assert_eq!(link.href, "http://example.com");
}

#[test]
fn valid_person_no_fields() {
    let doc = Document::from_str(r#"<person></person>"#);

    let mut pos = 0;
    let start = start_parse(&doc, &mut pos);
    let result = parse_person(start, &doc, &mut pos).unwrap();
    assert_eq!(result.name, None);
    assert!(result.email.is_none());
    assert!(result.link.is_none());
}

#[test]
fn extra_fields() {
    let doc = Document::from_str(r#"<person><foo>bar</foo></person>"#);

    let mut pos = 0;
    let start = start_parse(&doc, &mut pos);
    match parse_person(start, &doc, &mut pos) {
        Err(GapixError::UnexpectedStartElement(_)) => {}
        x => panic!("Unexpected result from parse(): {:?}", x),
    };
}
#[test]
fn person_extra_attributes() {
    let doc = Document::from_str(r#"<person foo="bar"></person>"#);

    let mut pos = 0;
    let start = start_parse(&doc, &mut pos);
    match parse_person(start, &doc, &mut pos) {
        Err(GapixError::UnexpectedAttributes { .. }) => {}
        x => panic!("Unexpected result from parse(): {:?}", x),
    };
}
