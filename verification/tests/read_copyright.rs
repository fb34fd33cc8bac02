use gapix_core::read::copyright::parse_copyright;
use gapix_core::error::GapixError;
use gapix_core::xml::{Document, Element, XmlEvent};

/// Often we need to get the contents of the start tag that a document
/// begins with.
fn start_parse<'a>(doc: &'a Document, pos: &mut usize) -> &'a Element {
    let start = match &doc.tokens[*pos].event {
        XmlEvent::Start(start) => start,
        XmlEvent::Empty(start) => start,
        _ => panic!("Failed to parse a start tag"),
    };
    *pos += 1;
    start
}

#[test]
fn valid_copyright_all_fields() {
    let doc = Document::from_str(
        r#"<copyright>
             <year>2024</year>
             <license>MIT</license>
             <author>Homer Simpson</author>
           </copyright>"#,
    );

    let mut pos = 0;
    let start = start_parse(&doc, &mut pos);
    let result = parse_copyright(start, &doc, &mut pos).unwrap();
    assert_eq!(result.year, Some(2024));
    assert_eq!(result.license, Some("MIT".to_string()));
    assert_eq!(result.author, "Homer Simpson");
}

#[test]
fn valid_copyright_author_only() {
    let doc = Document::from_str(
        r#"<copyright>
             <author>Homer Simpson</author>
           </copyright>"#,
    );

    let mut pos = 0;
    let start = start_parse(&doc, &mut pos);
    let result = parse_copyright(start, &doc, &mut pos).unwrap();
    assert_eq!(result.year, None);
    assert_eq!(result.license, None);
    assert_eq!(result.author, "Homer Simpson");
}

#[test]
fn valid_copyright_missing_license() {
    let doc = Document::from_str(
        r#"<copyright>
             <year>2024</year>
             <author>Homer Simpson</author>
           </copyright>"#,
    );

    let mut pos = 0;
    let start = start_parse(&doc, &mut pos);
    let result = parse_copyright(start, &doc, &mut pos).unwrap();
    assert_eq!(result.year, Some(2024));
    assert_eq!(result.license, None);
    assert_eq!(result.author, "Homer Simpson");
}

#[test]
fn missing_author() {
    let doc = Document::from_str(
        r#"<copyright>
             <year>2024</year>
             <license>MIT</license>
           </copyright>"#,
    );

    let mut pos = 0;
    let start = start_parse(&doc, &mut pos);
    let result = parse_copyright(start, &doc, &mut pos);
    assert!(result.is_err());
}

#[test]
fn copyright_extra_elements() {
    let doc = Document::from_str(
        r#"<copyright>
             <author>Homer Simpson</author>
             <foo>bar</foo>
           </copyright>"#,
    );

    let mut pos = 0;
    let start = start_parse(&doc, &mut pos);
    let result = parse_copyright(start, &doc, &mut pos);
    assert!(result.is_err());
}

#[test]
fn copyright_extra_attributes() {
    let doc = Document::from_str(
        r#"<copyright foo="bar">
             <author>Homer Simpson</author>
           </copyright>"#,
    );

    let mut pos = 0;
    let start = start_parse(&doc, &mut pos);
    let result = parse_copyright(start, &doc, &mut pos);
    assert!(result.is_err());
}
