use docx2tex::model::{Cell, Document, Element, Run};
use docx2tex::report::{count_elements, parsed_message, structure_line_text, truncate, validation_report};

fn run(text: &str) -> Run {
    Run { text: text.to_owned(), ..Default::default() }
}

#[test]
fn report_lists_counts_and_structure() {
    let doc = Document {
        title: Some("My Thesis".to_owned()),
        elements: vec![
            Element::Heading { level: 1, runs: vec![run("Introduction")] },
            Element::Paragraph { runs: vec![run("This thesis investigates")] },
            Element::List { ordered: false, items: vec![(0, vec![run("a")]), (2, vec![run("b")])] },
            Element::Table { rows: vec![vec![Cell { runs: vec![] }, Cell { runs: vec![] }]], caption: Some("Data".to_owned()) },
            Element::Image { path: "media/figure1.png".to_owned(), width_emu: None, caption: None },
            Element::PageBreak,
            Element::TocBlock,
        ],
    };
    let expected = "Document Summary\n================\n  Title      : My Thesis\n  Headings   : 1\n  Paragraphs : 1\n  Lists      : 1\n  Tables     : 1\n  Images     : 1\n  Page breaks: 1\n  TOC blocks : 1\n\nStructure\n---------\n  [  1] H1: \"Introduction\"\n  [  2] Paragraph: \"This thesis investigates\"\n  [  3] List (unordered, level 2): 2 item(s)\n  [  4] Table: 1 row(s) × 2 col(s) — \"Data\"\n  [  5] Image: media/figure1.png\n  [  6] PageBreak\n  [  7] TableOfContents (auto-generated)\n";
    assert_eq!(validation_report(&doc).unwrap(), expected);
}

#[test]
fn report_without_title_or_toc() {
    let doc = Document { title: None, elements: vec![] };
    assert_eq!(
        validation_report(&doc).unwrap(),
        "Document Summary\n================\n  Headings   : 0\n  Paragraphs : 0\n  Lists      : 0\n  Tables     : 0\n  Images     : 0\n  Page breaks: 0\n\nStructure\n---------\n"
    );
}

#[test]
fn long_paragraphs_are_truncated() {
    assert_eq!(truncate("abcdef", 3), "abc…");
    assert_eq!(truncate("abc", 3), "abc");
    assert_eq!(truncate("ééé", 2), "éé…");
    let long = "x".repeat(70);
    let line = structure_line_text(12, &Element::Paragraph { runs: vec![run(&long)] }).unwrap();
    assert_eq!(line, format!("  [ 12] Paragraph: \"{}…\"\n", "x".repeat(60)));
}

#[test]
fn caption_preview_is_fifty_bytes() {
    let cap = "a".repeat(60);
    let el = Element::Table { rows: vec![], caption: Some(cap) };
    let line = structure_line_text(1000, &el).unwrap();
    assert_eq!(line, format!("  [1000] Table: 0 row(s) × 0 col(s) — \"{}\"\n", "a".repeat(50)));
    // The 50th byte inside a two-byte character: no preview can be cut.
    let cap = format!("{}é", "a".repeat(49));
    let el = Element::Table { rows: vec![], caption: Some(cap) };
    assert_eq!(structure_line_text(1, &el), None);
}

#[test]
fn generated_lists_are_counted_together() {
    let c = count_elements(&vec![Element::TocBlock, Element::LofBlock, Element::LotBlock, Element::PageBreak]);
    assert_eq!(c.toc_blocks, 3);
    assert_eq!(c.page_breaks, 1);
    assert_eq!(c.headings, 0);
}

#[test]
fn parsed_message_plural() {
    assert_eq!(parsed_message(1), "  Parsed 1 block element.");
    assert_eq!(parsed_message(0), "  Parsed 0 block elements.");
    assert_eq!(parsed_message(12), "  Parsed 12 block elements.");
}

#[test]
fn counts_add_up_to_the_elements() {
    let els = vec![
        Element::PageBreak,
        Element::Paragraph { runs: vec![] },
        Element::LotBlock,
        Element::Image { path: "p".to_owned(), width_emu: None, caption: None },
        Element::Paragraph { runs: vec![] },
    ];
    let c = count_elements(&els);
    let total = c.headings + c.paragraphs + c.lists + c.tables + c.images + c.page_breaks + c.toc_blocks;
    assert_eq!(total as usize, els.len());
    assert_eq!(c.paragraphs, 2);
}
