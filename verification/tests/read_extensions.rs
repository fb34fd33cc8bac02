use gapix_core::read::extensions::parse_extensions;
use gapix_core::error::GapixError;
use gapix_core::xml::{Document, Element, XmlEvent};

/// Often we need to get the contents of the start tag that a document
/// begins with.
fn start_parse<'a>(doc: &'a Document, pos: &mut usize) -> &'a Element {
    let start = match &doc.tokens[*pos].event {
        XmlEvent::Start(start) => start,
        XmlEvent::Empty(start) => start,
        _ => panic!("Failed to parse a start tag"),
    };
    *pos += 1;
    start
}

#[test]
fn valid_empty() {
    let doc = Document::from_str(
        r#"<extensions>  
           </extensions>"#,
    );

    let mut pos = 0;
    let start = start_parse(&doc, &mut pos);
    let result = parse_extensions(start, &doc, &mut pos).unwrap();
    assert!(result.raw_xml.is_empty());
}

#[test]
fn valid_extensions_and_preserves_newlines() {
    let doc = Document::from_str(
        r#"<extensions>  
              <foo bar="42">inner text</foo>
<plod>12</plod>
           </extensions>"#,
    );

    let mut pos = 0;
    let start = start_parse(&doc, &mut pos);
    let result = parse_extensions(start, &doc, &mut pos).unwrap();
    assert_eq!(
        result.raw_xml,
        r#"<foo bar="42">inner text</foo>
<plod>12</plod>"#
    );
}

#[test]
fn white_space_of_every_kind_is_cut_from_both_ends() {
    let doc = Document::from_str(
        "<extensions>\u{a0}\t\r\n\u{2003}\u{3000}<foo> a </foo>\u{85}\u{2028}\u{205f} </extensions>",
    );
    let mut pos = 0;
    let start = start_parse(&doc, &mut pos);
    let result = parse_extensions(start, &doc, &mut pos).unwrap();
    assert_eq!(result.raw_xml, "<foo> a </foo>");
}

#[test]
fn what_is_no_white_space_stays() {
    let doc = Document::from_str("<extensions>\u{200b}<foo/>\u{feff}</extensions>");
    let mut pos = 0;
    let start = start_parse(&doc, &mut pos);
    let result = parse_extensions(start, &doc, &mut pos).unwrap();
    assert_eq!(result.raw_xml, "\u{200b}<foo/>\u{feff}");
}
