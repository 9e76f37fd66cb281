use docx2tex::docx::{
    heading_level_for_style, is_truthy, normalize_media_target, numbering_of, relationship_map, style_map, Numbering,
};
use docx2tex::renderer::emu_to_hundredths;
use docx2tex::xml::{xml_events, XmlAttr, XmlEvent};

fn attr(key: &str, value: &str) -> XmlAttr {
    XmlAttr { key: key.to_owned(), value: value.to_owned() }
}

#[test]
fn test_target_normalization() {
    assert_eq!(normalize_media_target("media/image1.png"), "media/image1.png");
    assert_eq!(normalize_media_target(r"media\image1.png"), "media/image1.png");
    assert_eq!(normalize_media_target("/word/media/image1.png"), "media/image1.png");
    assert_eq!(normalize_media_target("../media/image1.png"), "media/image1.png");
    assert_eq!(normalize_media_target("image1.png"), "media/image1.png");
}

#[test]
fn test_emu_conversion() {
    // Widths are kept in EMU and written in hundredths of a centimetre.
    assert_eq!(emu_to_hundredths(914_400), 254); // 1 inch
    assert_eq!(emu_to_hundredths(3_240_000), 900); // ~3.5in
    assert_eq!(emu_to_hundredths(0), 0);
}

#[test]
fn test_is_truthy_toggles() {
    // No w:val implies true
    let e1: Vec<XmlAttr> = vec![];
    assert!(is_truthy(&e1));

    // w:val="1" implies true
    let e2 = vec![attr("w:val", "1")];
    assert!(is_truthy(&e2));

    // w:val="0" implies false
    let e3 = vec![attr("w:val", "0")];
    assert!(!is_truthy(&e3));

    // w:val="false" implies false
    let e4 = vec![attr("w:val", "false")];
    assert!(!is_truthy(&e4));

    // w:val="True" implies true
    let e5 = vec![attr("w:val", "True")];
    assert!(is_truthy(&e5));
}

#[test]
fn truthy_reads_the_first_val_and_ignores_case() {
    assert!(!is_truthy(&vec![attr("w:val", "OFF")]));
    assert!(!is_truthy(&vec![attr("w:val", "False"), attr("w:val", "1")]));
    assert!(is_truthy(&vec![attr("w:other", "0")]));
}

#[test]
fn heading_levels_of_style_names() {
    assert_eq!(heading_level_for_style("Heading 1"), Some(1));
    assert_eq!(heading_level_for_style("heading2"), Some(2));
    assert_eq!(heading_level_for_style("Title"), Some(1));
    assert_eq!(heading_level_for_style("Subtitle"), Some(2));
    assert_eq!(heading_level_for_style("H3"), Some(3));
    assert_eq!(heading_level_for_style("My Heading 4 style"), Some(4));
    assert_eq!(heading_level_for_style("Heading 5"), None);
    assert_eq!(heading_level_for_style("Normal"), None);
}

#[test]
fn target_normalization_is_idempotent() {
    for t in ["media/image1.png", r"..\word\media\a.png", "/word/media/b.jpg", "c.gif", "../../x/y.png"] {
        let once = normalize_media_target(t);
        assert_eq!(normalize_media_target(&once), once);
    }
}

#[test]
fn target_normalization_edge_cases() {
    assert_eq!(normalize_media_target("word/../../media/x.png"), "media/x.png");
    assert_eq!(normalize_media_target("//media/x.png"), "media/x.png");
    assert_eq!(normalize_media_target(""), "media/");
}

#[test]
fn styles_part_maps_ids_to_names() {
    let xml = r#"<?xml version="1.0"?>
<w:styles xmlns:w="x">
  <w:style w:type="paragraph" w:styleId="Heading1"><w:name w:val="heading 1"/></w:style>
  <w:style w:type="paragraph" w:styleId="Normal"><w:name w:val="Normal"/></w:style>
  <w:style w:type="paragraph"><w:name w:val="No id"/></w:style>
</w:styles>"#;
    let events = xml_events(xml, true);
    let map = style_map(&events);
    assert_eq!(
        map,
        vec![("Heading1".to_owned(), "heading 1".to_owned()), ("Normal".to_owned(), "Normal".to_owned())]
    );
}

#[test]
fn relationships_part_keeps_images_and_links() {
    let xml = r#"<Relationships xmlns="x">
  <Relationship Id="rId1" Type="http://x/officeDocument/2006/relationships/image" Target="media/image1.png"/>
  <Relationship Id="rId2" Type="http://x/relationships/hyperlink" Target="https://example.com/a" TargetMode="External"/>
  <Relationship Id="rId3" Type="http://x/relationships/styles" Target="styles.xml"/>
  <Relationship Id="rId4" Type="http://x/relationships/image" Target="/word/media/image2.emf"/>
</Relationships>"#;
    let events = xml_events(xml, true);
    let map = relationship_map(&events);
    assert_eq!(
        map,
        vec![
            ("rId1".to_owned(), "media/image1.png".to_owned()),
            ("rId2".to_owned(), "https://example.com/a".to_owned()),
            ("rId4".to_owned(), "media/image2.emf".to_owned()),
        ]
    );
}

#[test]
fn numbering_part_marks_ordered_lists() {
    let xml = r#"<w:numbering xmlns:w="x">
  <w:abstractNum w:abstractNumId="0">
    <w:lvl w:ilvl="0"><w:numFmt w:val="bullet"/></w:lvl>
    <w:lvl w:ilvl="1"><w:numFmt w:val="decimal"/></w:lvl>
  </w:abstractNum>
  <w:abstractNum w:abstractNumId="1">
    <w:lvl w:ilvl="0"><w:numFmt w:val="decimal"/></w:lvl>
  </w:abstractNum>
  <w:abstractNum w:abstractNumId="2">
    <w:lvl w:ilvl="0"><w:numFmt w:val="lowerLetter"/></w:lvl>
  </w:abstractNum>
  <w:num w:numId="1"><w:abstractNumId w:val="0"/></w:num>
  <w:num w:numId="2"><w:abstractNumId w:val="1"/></w:num>
  <w:num w:numId="3"><w:abstractNumId w:val="2"/></w:num>
</w:numbering>"#;
    let events = xml_events(xml, true);
    let n = numbering_of(&events);
    assert!(!n.is_ordered(1));
    assert!(n.is_ordered(2));
    // Formats compare case-insensitively: `lowerLetter` numbers its items.
    assert!(n.is_ordered(3));
    assert!(!n.is_ordered(9));
}

#[test]
fn roman_numbering_is_ordered() {
    let xml = "<w:numbering><w:abstractNum w:abstractNumId='0'><w:lvl w:ilvl='0'><w:numFmt w:val='lowerRoman'/></w:lvl></w:abstractNum><w:num w:numId='1'><w:abstractNumId w:val='0'/></w:num></w:numbering>";
    let n = numbering_of(&xml_events(xml, true));
    assert!(n.is_ordered(1));
    assert!(!n.is_ordered(2));
}

#[test]
fn empty_numbering_orders_nothing() {
    assert!(!Numbering::empty().is_ordered(0));
}

#[test]
fn xml_events_end_with_eof_or_error() {
    let events = xml_events("<a><b/></a>", true);
    assert!(matches!(events.last(), Some(XmlEvent::Eof)));
    assert!(matches!(events[0], XmlEvent::Start { .. }));
    assert!(matches!(events[1], XmlEvent::Empty { .. }));
    let bad = xml_events("<a></b>", true);
    assert!(matches!(bad.last(), Some(XmlEvent::Error { .. })));
}

#[test]
fn first_format_counts_and_last_instance_definition_wins() {
    let xml = "<w:numbering><w:abstractNum w:abstractNumId='0'><w:lvl w:ilvl='0'><w:numFmt w:val='bullet'/></w:lvl><w:lvl w:ilvl='0'><w:numFmt w:val='decimal'/></w:lvl></w:abstractNum><w:abstractNum w:abstractNumId='1'><w:lvl w:ilvl='0'><w:numFmt w:val='upperRoman'/></w:lvl></w:abstractNum><w:num w:numId='1'><w:abstractNumId w:val='1'/></w:num><w:num w:numId='1'><w:abstractNumId w:val='0'/></w:num><w:num w:numId='2'><w:abstractNumId w:val='1'/></w:num></w:numbering>";
    let n = numbering_of(&xml_events(xml, true));
    assert_eq!(n.num_to_abstract.get(&1), Some(&0));
    assert_eq!(n.abstract_ordered.get(&0), Some(&false));
    assert!(!n.is_ordered(1));
    assert!(n.is_ordered(2));
}

#[test]
fn relationship_targets_are_unescaped() {
    let xml = "<Relationships><Relationship Id='rId1' Type='t/image' Target='/word/media/image1.png'/><Relationship Id='rId2' Type='t/hyperlink' Target='https://x.org/?a=1&amp;b=2'/><Relationship Id='rId3' Type='t/styles' Target='styles.xml'/><Relationship Id='rId4' Type='t/hyperlink' Target='bad &amp ref'/></Relationships>";
    let map = relationship_map(&xml_events(xml, true));
    assert_eq!(
        map,
        vec![
            ("rId1".to_owned(), "media/image1.png".to_owned()),
            ("rId2".to_owned(), "https://x.org/?a=1&b=2".to_owned()),
            ("rId4".to_owned(), "bad &amp ref".to_owned()),
        ]
    );
}
