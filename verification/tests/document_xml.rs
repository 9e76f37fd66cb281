use std::collections::HashMap;

use docx2tex::docx::Numbering;
use docx2tex::document_xml::{parse_document_xml, ParseContext};
use docx2tex::model::{DocError, Document, Element};

fn ctx() -> ParseContext {
    ParseContext {
        styles: vec![("Heading1".to_owned(), "heading 1".to_owned()), ("Heading2".to_owned(), "heading 2".to_owned())],
        rels: vec![
            ("rId5".to_owned(), "media/image1.png".to_owned()),
            ("rId9".to_owned(), "https://example.com".to_owned()),
        ],
        numbering: Numbering {
            num_to_abstract: HashMap::from([(1, 0), (2, 1)]),
            abstract_ordered: HashMap::from([(0, false), (1, true)]),
        },
    }
}

fn body(inner: &str) -> String {
    format!(r#"<?xml version="1.0"?><w:document xmlns:w="w"><w:body>{inner}</w:body></w:document>"#)
}

fn parse(inner: &str) -> Document {
    match parse_document_xml(&body(inner), &ctx()) {
        Some(Ok(d)) => d,
        _ => panic!("document expected"),
    }
}

fn text_of(runs: &[docx2tex::model::Run]) -> String {
    runs.iter().map(|r| r.text.as_str()).collect()
}

#[test]
fn paragraphs_and_runs_with_formatting() {
    let d = parse(
        r#"<w:p><w:r><w:rPr><w:b/></w:rPr><w:t>Bold</w:t></w:r><w:r><w:rPr><w:i w:val="0"/></w:rPr><w:t xml:space="preserve"> plain &amp; simple</w:t></w:r></w:p>"#,
    );
    assert_eq!(d.elements.len(), 1);
    match &d.elements[0] {
        Element::Paragraph { runs } => {
            assert_eq!(runs.len(), 2);
            assert!(runs[0].bold);
            assert_eq!(runs[0].text, "Bold");
            assert!(!runs[1].italic);
            assert_eq!(runs[1].text, " plain & simple");
        },
        _ => panic!("paragraph expected"),
    }
    assert_eq!(d.title, None);
}

#[test]
fn styled_heading_on_a_start_tag_sets_the_title() {
    let d = parse(r#"<w:p><w:pPr><w:pStyle w:val="Heading1"></w:pStyle></w:pPr><w:r><w:t>Intro</w:t></w:r></w:p>"#);
    assert!(matches!(d.elements[0], Element::Heading { level: 1, .. }));
    assert_eq!(d.title.as_deref(), Some("Intro"));
}

#[test]
fn style_on_an_empty_tag_makes_a_heading() {
    let d = parse(r#"<w:p><w:pPr><w:pStyle w:val="Heading1"/></w:pPr><w:r><w:t>Intro</w:t></w:r></w:p>"#);
    assert_eq!(d.elements.len(), 1);
    match &d.elements[0] {
        Element::Heading { level, runs } => {
            assert_eq!(*level, 1);
            assert_eq!(text_of(runs), "Intro");
        },
        _ => panic!("heading expected"),
    }
    assert_eq!(d.title.as_deref(), Some("Intro"));
}

fn bare(xml: &str, numbering: Numbering) -> Document {
    let c = ParseContext { styles: Vec::new(), rels: Vec::new(), numbering };
    match parse_document_xml(xml, &c) {
        Some(Ok(d)) => d,
        _ => panic!("document expected"),
    }
}

#[test]
fn items_with_empty_numbering_tags_form_one_list() {
    let xml = "<w:body><w:p><w:pPr><w:numPr><w:ilvl w:val='0'/><w:numId w:val='1'/></w:numPr></w:pPr><w:r><w:t>a</w:t></w:r></w:p><w:p><w:pPr><w:numPr><w:ilvl w:val='0'/><w:numId w:val='1'/></w:numPr></w:pPr><w:r><w:t>b</w:t></w:r></w:p><w:p><w:r><w:t>c</w:t></w:r></w:p></w:body>";
    let d = bare(xml, Numbering::empty());
    assert_eq!(d.title, None);
    assert_eq!(d.elements.len(), 2);
    match &d.elements[0] {
        Element::List { ordered, items } => {
            assert!(!*ordered);
            assert_eq!(items.len(), 2);
            assert_eq!((items[0].0, text_of(&items[0].1)), (0, "a".to_owned()));
            assert_eq!((items[1].0, text_of(&items[1].1)), (0, "b".to_owned()));
        },
        _ => panic!("list expected"),
    }
    match &d.elements[1] {
        Element::Paragraph { runs } => assert_eq!(text_of(runs), "c"),
        _ => panic!("paragraph expected"),
    }
}

#[test]
fn consecutive_items_of_one_list_stay_together() {
    let xml = "<w:body><w:p><w:pPr><w:numPr><w:numId w:val='1'></w:numId></w:numPr></w:pPr><w:r><w:t>a</w:t></w:r></w:p><w:p><w:pPr><w:numPr><w:numId w:val='1'></w:numId></w:numPr></w:pPr><w:r><w:t>b</w:t></w:r></w:p></w:body>";
    let numbering = Numbering { num_to_abstract: HashMap::from([(1, 0)]), abstract_ordered: HashMap::from([(0, true)]) };
    let d = bare(xml, numbering);
    assert_eq!(d.elements.len(), 1);
    match &d.elements[0] {
        Element::List { ordered, items } => {
            assert!(*ordered);
            assert_eq!(items.len(), 2);
            assert_eq!(text_of(&items[0].1), "a");
            assert_eq!(text_of(&items[1].1), "b");
        },
        _ => panic!("list expected"),
    }
}

#[test]
fn line_break_is_a_space_and_page_break_an_element() {
    let xml = "<w:body><w:p><w:r><w:t>a</w:t><w:br/><w:t>b</w:t></w:r></w:p><w:p><w:r><w:br w:type='page'/></w:r></w:p></w:body>";
    let d = bare(xml, Numbering::empty());
    assert_eq!(d.elements.len(), 3);
    match &d.elements[0] {
        Element::Paragraph { runs } => {
            assert_eq!(runs.len(), 1);
            assert_eq!(runs[0].text, "a b");
        },
        _ => panic!("paragraph expected"),
    }
    assert!(matches!(d.elements[1], Element::PageBreak));
    match &d.elements[2] {
        Element::Paragraph { runs } => assert!(runs.is_empty()),
        _ => panic!("paragraph expected"),
    }
}

#[test]
fn title_line_sets_the_title_and_is_dropped() {
    let d = parse(r#"<w:p><w:r><w:t>Title:  My Report </w:t></w:r></w:p><w:p><w:r><w:t>Body</w:t></w:r></w:p>"#);
    assert_eq!(d.title.as_deref(), Some("My Report"));
    assert_eq!(d.elements.len(), 1);
}

#[test]
fn page_breaks_and_line_breaks() {
    let d = parse(r#"<w:p><w:r><w:t>a</w:t><w:br/><w:t>b</w:t><w:tab/><w:t>c</w:t></w:r></w:p><w:p><w:r><w:br w:type="page"/></w:r></w:p><w:p><w:r><w:t>next</w:t></w:r></w:p>"#);
    // The page break is emitted at once; its (empty) paragraph follows it.
    assert_eq!(d.elements.len(), 4);
    match &d.elements[0] {
        Element::Paragraph { runs } => assert_eq!(text_of(runs), "a b c"),
        _ => panic!("paragraph expected"),
    }
    assert!(matches!(d.elements[1], Element::PageBreak));
    match &d.elements[2] {
        Element::Paragraph { runs } => assert!(runs.is_empty()),
        _ => panic!("paragraph expected"),
    }
}

#[test]
fn numbered_items_become_lists() {
    let item = |num: u32, lvl: u8, t: &str| {
        format!(r#"<w:p><w:pPr><w:numPr><w:ilvl w:val="{lvl}"></w:ilvl><w:numId w:val="{num}"></w:numId></w:numPr></w:pPr><w:r><w:t>{t}</w:t></w:r></w:p>"#)
    };
    let xml = format!(
        "{}{}{}{}<w:p><w:r><w:t>after</w:t></w:r></w:p>",
        item(2, 0, "one"),
        item(2, 1, "two"),
        item(2, 1, "three"),
        item(1, 0, "bullet")
    );
    let d = parse(&xml);
    // Items of one list stay together; a change of list id starts a new
    // list, and each list keeps its own numbering kind.
    assert_eq!(d.elements.len(), 3);
    match &d.elements[0] {
        Element::List { ordered, items } => {
            assert!(*ordered);
            assert_eq!(items.len(), 3);
            assert_eq!(text_of(&items[0].1), "one");
            assert_eq!(items[1].0, 1);
            assert_eq!(text_of(&items[2].1), "three");
        },
        _ => panic!("list expected"),
    }
    match &d.elements[1] {
        Element::List { ordered, items } => {
            assert!(!*ordered);
            assert_eq!(items.len(), 1);
            assert_eq!(text_of(&items[0].1), "bullet");
        },
        _ => panic!("list expected"),
    }
    assert!(matches!(d.elements[2], Element::Paragraph { .. }));
}

#[test]
fn tables_collect_cells() {
    let d = parse(
        r#"<w:tbl><w:tr><w:tc><w:p><w:r><w:t>A</w:t></w:r></w:p><w:p><w:r><w:t>B</w:t></w:r></w:p></w:tc><w:tc><w:p><w:r><w:t>C</w:t></w:r></w:p></w:tc></w:tr><w:tr></w:tr></w:tbl>"#,
    );
    assert_eq!(d.elements.len(), 1);
    match &d.elements[0] {
        Element::Table { rows, caption } => {
            assert_eq!(rows.len(), 1);
            assert_eq!(rows[0].len(), 2);
            assert_eq!(text_of(&rows[0][0].runs), "AB");
            assert_eq!(text_of(&rows[0][1].runs), "C");
            assert!(caption.is_none());
        },
        _ => panic!("table expected"),
    }
}

#[test]
fn drawings_become_images_before_their_paragraph() {
    let d = parse(
        r#"<w:p><w:r><w:drawing><wp:inline><wp:extent cx="914400" cy="100"/><wp:docPr id="1" name="Picture 1" descr=""/><a:graphic><a:blip r:embed="rId5"/></a:graphic></wp:inline></w:drawing></w:r><w:r><w:t>Caption text</w:t></w:r></w:p>"#,
    );
    assert_eq!(d.elements.len(), 2);
    match &d.elements[0] {
        Element::Image { path, width_emu, caption } => {
            assert_eq!(path, "media/image1.png");
            assert_eq!(*width_emu, Some(914400));
            assert_eq!(caption.as_deref(), Some("Picture 1"));
        },
        _ => panic!("image expected"),
    }
}

#[test]
fn hyperlinks_resolve_through_relationships() {
    let d = parse(
        r#"<w:p><w:hyperlink r:id="rId9"><w:r><w:t>site</w:t></w:r></w:hyperlink><w:hyperlink r:id="rId404"><w:r><w:t>gone</w:t></w:r></w:hyperlink></w:p>"#,
    );
    match &d.elements[0] {
        Element::Paragraph { runs } => {
            assert_eq!(runs[0].hyperlink.as_deref(), Some("https://example.com"));
            assert_eq!(runs[1].hyperlink.as_deref(), Some("rel:rId404"));
        },
        _ => panic!("paragraph expected"),
    }
}

#[test]
fn malformed_xml_is_an_xml_error() {
    match parse_document_xml(&body("<w:p><w:r></w:p>"), &ctx()) {
        Some(Err(DocError::Xml(_))) => {},
        _ => panic!("XML error expected"),
    }
}

#[test]
fn leading_empty_paragraphs_are_dropped() {
    let d = parse(r#"<w:p></w:p><w:p><w:r><w:t>x</w:t></w:r></w:p><w:p></w:p>"#);
    assert_eq!(d.elements.len(), 2);
}

#[test]
fn first_title_is_kept() {
    let d = parse(
        r#"<w:p><w:pPr><w:pStyle w:val="Heading1"></w:pStyle></w:pPr><w:r><w:t>First</w:t></w:r></w:p><w:p><w:pPr><w:pStyle w:val="Heading1"></w:pStyle></w:pPr><w:r><w:t>Second</w:t></w:r></w:p><w:p><w:r><w:t>TITLE: Third</w:t></w:r></w:p>"#,
    );
    assert_eq!(d.title.as_deref(), Some("First"));
    // With a title set, the `Title:` line stays an ordinary paragraph.
    assert_eq!(d.elements.len(), 3);
}

#[test]
fn parsed_output_is_well_formed() {
    let d = parse(
        r#"<w:tbl><w:tr></w:tr></w:tbl><w:tbl><w:tr><w:tc><w:p><w:r><w:t></w:t></w:r></w:p></w:tc></w:tr></w:tbl><w:p><w:r><w:t></w:t></w:r><w:r><w:t>x</w:t></w:r></w:p>"#,
    );
    // The first table has no rows and is dropped; the empty run is dropped.
    assert_eq!(d.elements.len(), 2);
    for el in &d.elements {
        match el {
            Element::Table { rows, caption } => {
                assert!(!rows.is_empty() && caption.is_none());
                assert!(rows.iter().all(|r| !r.is_empty()));
                assert!(rows.iter().flatten().all(|c| c.runs.iter().all(|r| !r.text.is_empty())));
            },
            Element::Paragraph { runs } => assert!(runs.iter().all(|r| !r.text.is_empty())),
            _ => panic!("only a table and a paragraph expected"),
        }
    }
}

#[test]
fn title_line_cut_counts_bytes() {
    // "tıtle:" upper-cases to "TITLE:", but `ı` takes two bytes: the first six
    // bytes end before the colon, which stays in the title.
    let d = parse(r#"<w:p><w:r><w:t>tıtle:x</w:t></w:r></w:p>"#);
    assert_eq!(d.title.as_deref(), Some(":x"));
    assert!(d.elements.is_empty());
}

#[test]
fn run_properties_on_empty_tags_apply() {
    let d = parse(r#"<w:p><w:r><w:rPr><w:vertAlign w:val="superscript"/><w:rFonts w:ascii="Courier New"/></w:rPr><w:t>x</w:t></w:r><w:r><w:rPr><w:vertAlign w:val="subscript"/></w:rPr><w:t>y</w:t></w:r></w:p>"#);
    match &d.elements[0] {
        Element::Paragraph { runs } => {
            assert!(runs[0].superscript && runs[0].mono && !runs[0].subscript);
            assert!(runs[1].subscript && !runs[1].superscript && !runs[1].mono);
        },
        _ => panic!("paragraph expected"),
    }
}
