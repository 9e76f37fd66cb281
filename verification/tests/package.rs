use std::io::{Cursor, Write};

use docx2tex::model::{DocError, Element};
use docx2tex::package::{patch_targets, Package};
use zip::write::SimpleFileOptions;
use zip::{CompressionMethod, ZipWriter};

fn zip_of(entries: &[(&str, &[u8])]) -> Vec<u8> {
    let mut w = ZipWriter::new(Cursor::new(Vec::new()));
    let opts = SimpleFileOptions::default().compression_method(CompressionMethod::Stored);
    for (name, data) in entries {
        w.start_file(*name, opts).unwrap();
        w.write_all(data).unwrap();
    }
    w.finish().unwrap().into_inner()
}

const DOCUMENT: &str = r#"<?xml version="1.0"?><w:document xmlns:w="w"><w:body>
<w:p><w:pPr><w:pStyle w:val="H1"></w:pStyle></w:pPr><w:r><w:t>Results</w:t></w:r></w:p>
<w:p><w:r><w:drawing><wp:extent cx="360000"/><a:blip r:embed="rId1"/></w:drawing></w:r></w:p>
<w:p><w:r><w:t>Some   text.</w:t></w:r></w:p>
</w:body></w:document>"#;

const RELS: &str = r#"<Relationships><Relationship Id="rId1" Type="x/image" Target="media/image1.emf"/></Relationships>"#;

const STYLES: &str = r#"<w:styles><w:style w:styleId="H1"><w:name w:val="Heading 1"/></w:style></w:styles>"#;

fn sample() -> Vec<u8> {
    zip_of(&[
        ("[Content_Types].xml", b"<Types/>"),
        ("word/document.xml", DOCUMENT.as_bytes()),
        ("word/_rels/document.xml.rels", RELS.as_bytes()),
        ("word/styles.xml", STYLES.as_bytes()),
        ("word/media/image1.emf", b"EMF"),
        ("word/media/photo.png", b"PNG"),
    ])
}

#[test]
fn package_parts_are_read_and_assembled() {
    let mut p = Package::open(sample()).ok().unwrap();
    assert_eq!(p.media_names(), vec!["word/media/image1.emf".to_owned(), "word/media/photo.png".to_owned()]);
    assert_eq!(p.read_media("word/media/photo.png").ok().unwrap(), b"PNG".to_vec());
    assert_eq!(p.read_entry("word/styles.xml").ok().unwrap(), STYLES);
    assert_eq!(p.read_relationships(), vec![("rId1".to_owned(), "media/image1.emf".to_owned())]);
    assert_eq!(p.read_styles().ok().unwrap(), vec![("H1".to_owned(), "Heading 1".to_owned())]);
    let renames = vec![("media/image1.emf".to_owned(), "media/image1.png".to_owned())];
    let doc = p.parse_document(&renames).unwrap().ok().unwrap();
    assert_eq!(doc.title.as_deref(), Some("Results"));
    // The drawing's paragraph has no text of its own: it stays as an empty paragraph.
    assert_eq!(doc.elements.len(), 4);
    assert!(matches!(doc.elements[0], Element::Heading { level: 1, .. }));
    match &doc.elements[1] {
        Element::Image { path, width_emu, .. } => {
            assert_eq!(path, "media/image1.png");
            assert_eq!(*width_emu, Some(360000));
        },
        _ => panic!("image expected"),
    }
    assert!(matches!(&doc.elements[2], Element::Paragraph { runs } if runs.is_empty()));
    match &doc.elements[3] {
        Element::Paragraph { runs } => assert_eq!(runs[0].text, "Some text."),
        _ => panic!("paragraph expected"),
    }
}

#[test]
fn missing_body_is_reported_by_name() {
    let mut p = Package::open(zip_of(&[("word/styles.xml", STYLES.as_bytes())])).ok().unwrap();
    match p.parse_document(&vec![]) {
        Some(Err(e)) => {
            assert!(matches!(&e, DocError::Missing(n) if n == "word/document.xml"));
            assert_eq!(e.message(), "Required entry missing from archive: word/document.xml");
        },
        _ => panic!("missing entry expected"),
    }
    assert!(p.read_relationships().is_empty());
    assert_eq!(p.read_styles().ok().unwrap().len(), 1);
    assert!(!p.read_numbering().is_ordered(1));
}

#[test]
fn body_that_is_not_utf8_is_an_io_error() {
    let mut p = Package::open(zip_of(&[("word/document.xml", &[0xff, 0xfe, 0x00])])).ok().unwrap();
    assert!(matches!(p.read_entry("word/document.xml"), Err(DocError::Io(_))));
}

#[test]
fn unknown_media_entry_is_a_zip_error() {
    let mut p = Package::open(sample()).ok().unwrap();
    match p.read_media("word/media/nothing.png") {
        Err(e) => {
            assert!(matches!(e, DocError::Zip(_)));
            assert!(e.message().starts_with("ZIP error: "));
        },
        Ok(_) => panic!("error expected"),
    }
}

#[test]
fn garbage_is_not_an_archive() {
    match Package::open(b"not a zip file".to_vec()) {
        Err(e) => assert!(matches!(e, DocError::Zip(_))),
        Ok(_) => panic!("error expected"),
    }
}

#[test]
fn renamed_targets_are_followed() {
    let rels = vec![("a".to_owned(), "media/x.emf".to_owned()), ("b".to_owned(), "https://e.com".to_owned())];
    let renames = vec![("media/x.emf".to_owned(), "media/x.png".to_owned())];
    assert_eq!(
        patch_targets(rels, &renames),
        vec![("a".to_owned(), "media/x.png".to_owned()), ("b".to_owned(), "https://e.com".to_owned())]
    );
}

#[test]
fn numbered_list_through_the_package() {
    let body = "<w:document><w:body><w:p><w:pPr><w:numPr><w:ilvl w:val='0'/><w:numId w:val='1'/></w:numPr></w:pPr><w:r><w:t>a</w:t></w:r></w:p><w:p><w:pPr><w:numPr><w:ilvl w:val='0'/><w:numId w:val='1'/></w:numPr></w:pPr><w:r><w:t>b</w:t></w:r></w:p></w:body></w:document>";
    let numbering = "<w:numbering><w:abstractNum w:abstractNumId='0'><w:lvl w:ilvl='0'><w:numFmt w:val='lowerRoman'/></w:lvl></w:abstractNum><w:num w:numId='1'><w:abstractNumId w:val='0'/></w:num></w:numbering>";
    let mut p = Package::open(zip_of(&[
        ("word/document.xml", body.as_bytes()),
        ("word/numbering.xml", numbering.as_bytes()),
        ("word/styles.xml", &[0xff, 0xfe]),
    ]))
    .ok()
    .unwrap();
    assert!(p.read_numbering().is_ordered(1));
    assert!(matches!(p.read_styles(), Err(DocError::Io(_))));
    assert!(matches!(p.read_entry("word/nothing.xml"), Err(DocError::Missing(_))));
    let doc = p.parse_document(&vec![]).unwrap().ok().unwrap();
    assert_eq!(doc.elements.len(), 1);
    match &doc.elements[0] {
        Element::List { ordered, items } => {
            assert!(*ordered);
            assert_eq!(items.len(), 2);
        },
        _ => panic!("list expected"),
    }
}
