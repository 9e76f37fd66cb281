use docx2tex::model::{Element, Run};
use docx2tex::normalizer::{
    coalesce_runs, collapse_spaces, deduplicate_page_breaks, detect_heading_level, detect_toc_block, fold_captions, normalize, normalize_whitespace,
    promote_bold_headings, promote_inline_bullets, remove_empty_list_items, remove_stray_page_numbers,
};

fn bold_run(text: &str) -> Run {
    Run { text: text.to_owned(), bold: true, ..Default::default() }
}

fn plain_run(text: &str) -> Run {
    Run { text: text.to_owned(), ..Default::default() }
}

fn para(runs: Vec<Run>) -> Element {
    Element::Paragraph { runs }
}

fn text_of(runs: &[Run]) -> String {
    runs.iter().map(|r| r.text.as_str()).collect()
}

// ── Page break deduplication ──────────────────────────────────────────────

#[test]
fn test_dedup_page_breaks_collapses_runs() {
    let input = vec![
        para(vec![plain_run("text")]),
        Element::PageBreak,
        Element::PageBreak,
        Element::PageBreak,
        para(vec![plain_run("more text")]),
    ];
    let out = deduplicate_page_breaks(input);
    assert_eq!(out.len(), 3);
    assert!(matches!(out[1], Element::PageBreak));
}

#[test]
fn test_dedup_page_breaks_single_kept() {
    let input = vec![para(vec![plain_run("a")]), Element::PageBreak, para(vec![plain_run("b")])];
    let out = deduplicate_page_breaks(input);
    assert_eq!(out.len(), 3);
}

// ── Heading promotion ─────────────────────────────────────────────────────

#[test]
fn test_chapter_promoted_to_level1() {
    let input = vec![Element::PageBreak, para(vec![bold_run("CHAPTER 1: INTRODUCTION")])];
    let out = promote_bold_headings(input);
    assert!(matches!(out[1], Element::Heading { level: 1, .. }));
}

#[test]
fn test_subsection_numbered() {
    let input = vec![Element::PageBreak, para(vec![bold_run("1.2 Background of the study")])];
    let out = promote_bold_headings(input);
    assert!(matches!(out[1], Element::Heading { level: 2, .. }));
}

#[test]
fn test_subsubsection_numbered() {
    let input = vec![Element::PageBreak, para(vec![bold_run("1.2.3 Specific sub-point")])];
    let out = promote_bold_headings(input);
    assert!(matches!(out[1], Element::Heading { level: 3, .. }));
}

#[test]
fn test_allcaps_promoted() {
    // ALL-CAPS bold headings after a page break → \section (level 2)
    let input = vec![Element::PageBreak, para(vec![bold_run("ABSTRACT")])];
    let out = promote_bold_headings(input);
    assert!(matches!(out[1], Element::Heading { level: 2, .. }));
}

#[test]
fn test_long_sentence_not_promoted() {
    let text = "This is a very long bold sentence that should not become a heading because it ends with a period.";
    let input = vec![Element::PageBreak, para(vec![bold_run(text)])];
    let out = promote_bold_headings(input);
    assert!(matches!(out[1], Element::Paragraph { .. }));
}

#[test]
fn test_non_bold_not_promoted() {
    let input = vec![Element::PageBreak, para(vec![plain_run("Chapter 1")])];
    let out = promote_bold_headings(input);
    assert!(matches!(out[1], Element::Paragraph { .. }));
}

#[test]
fn test_bold_stripped_after_promotion() {
    let input = vec![Element::PageBreak, para(vec![bold_run("CHAPTER 2")])];
    let out = promote_bold_headings(input);
    if let Element::Heading { runs, .. } = &out[1] {
        assert!(!runs[0].bold, "bold flag should be stripped on promotion");
    }
}

// ── TOC detection ─────────────────────────────────────────────────────────

#[test]
fn test_toc_cluster_replaced() {
    let toc_entry = |text: &str| para(vec![plain_run(text)]);
    let input = vec![
        para(vec![bold_run("TABLE OF CONTENTS")]),
        toc_entry("Introduction...................... 1"),
        toc_entry("Background........................ 5"),
        toc_entry("Methodology....................... 10"),
        toc_entry("Results........................... 15"),
        toc_entry("Conclusion........................ 20"),
    ];
    let out = detect_toc_block(input);
    // TOC header + 5 entries → 1 TocBlock
    assert_eq!(out.len(), 1);
    assert!(matches!(out[0], Element::TocBlock));
}

#[test]
fn test_stray_entries_kept_without_header() {
    let toc_entry = |text: &str| para(vec![plain_run(text)]);
    let input = vec![toc_entry("Intro....... 1"), toc_entry("Background.. 5"), toc_entry("Results..... 10")];
    // No TOC header → dot-leader lines are kept as-is (don't silently drop content)
    let out = detect_toc_block(input);
    assert_eq!(out.len(), 3);
    assert!(out.iter().all(|e| matches!(e, Element::Paragraph { .. })));
}

// ── Bullet promotion ──────────────────────────────────────────────────────

#[test]
fn test_bullets_grouped_into_list() {
    let input = vec![
        para(vec![plain_run("• First item")]),
        para(vec![plain_run("• Second item")]),
        para(vec![plain_run("• Third item")]),
        para(vec![plain_run("Normal paragraph")]),
    ];
    let out = promote_inline_bullets(input);
    assert_eq!(out.len(), 2);
    assert!(matches!(out[0], Element::List { ordered: false, .. }));
    assert!(matches!(out[1], Element::Paragraph { .. }));
}

#[test]
fn test_bullet_char_stripped_from_run() {
    let input = vec![para(vec![plain_run("• Hello world")])];
    let out = promote_inline_bullets(input);
    if let Element::List { items, .. } = &out[0] {
        let (_, runs) = &items[0];
        let text: String = runs.iter().map(|r| r.text.as_str()).collect();
        assert_eq!(text, "Hello world");
    }
}

// ── Laws and edge cases ───────────────────────────────────────────────────

#[test]
fn dedup_leaves_no_adjacent_breaks_and_is_idempotent() {
    let input = vec![
        Element::PageBreak,
        Element::PageBreak,
        para(vec![plain_run("a")]),
        Element::PageBreak,
        Element::PageBreak,
    ];
    let once = deduplicate_page_breaks(input);
    assert_eq!(once.len(), 3);
    for w in once.windows(2) {
        assert!(!(matches!(w[0], Element::PageBreak) && matches!(w[1], Element::PageBreak)));
    }
    let twice = deduplicate_page_breaks(once);
    assert_eq!(twice.len(), 3);
}

#[test]
fn coalescing_keeps_text_and_merges_equal_formatting() {
    let input = vec![para(vec![plain_run("Hel"), plain_run("lo "), bold_run("world")])];
    let out = coalesce_runs(input);
    if let Element::Paragraph { runs } = &out[0] {
        assert_eq!(runs.len(), 2);
        assert_eq!(runs[0].text, "Hello ");
        assert_eq!(text_of(runs), "Hello world");
    } else {
        panic!("paragraph expected");
    }
}

#[test]
fn whitespace_collapsed_in_runs() {
    let input = vec![para(vec![plain_run("a   b\t\tc")])];
    let out = normalize_whitespace(input);
    if let Element::Paragraph { runs } = &out[0] {
        assert_eq!(runs[0].text, "a b c");
    } else {
        panic!("paragraph expected");
    }
}

#[test]
fn any_ascii_white_space_run_becomes_one_space() {
    assert_eq!(collapse_spaces("a \t\n\n b"), "a b");
    assert_eq!(collapse_spaces("x\ry\u{0C}z"), "x\ry\u{0C}z");
    assert_eq!(collapse_spaces("x\r\ny"), "x y");
    assert_eq!(collapse_spaces("a\tb"), "a b");
    assert_eq!(collapse_spaces("no\u{A0}break"), "no\u{A0}break");
    let out = normalize_whitespace(vec![para(vec![plain_run("line\n\nnext")])]);
    if let Element::Paragraph { runs } = &out[0] {
        assert_eq!(runs[0].text, "line next");
    } else {
        panic!("paragraph expected");
    }
}

#[test]
fn stray_page_numbers_removed() {
    let input = vec![para(vec![plain_run("Text")]), para(vec![plain_run("  12 ")]), para(vec![plain_run("More")])];
    let out = remove_stray_page_numbers(input);
    assert_eq!(out.len(), 2);
}

#[test]
fn blank_list_items_pruned() {
    let input = vec![Element::List {
        ordered: true,
        items: vec![(0, vec![plain_run("one")]), (0, vec![plain_run("   ")]), (1, vec![plain_run("two")])],
    }];
    let out = remove_empty_list_items(input);
    if let Element::List { items, .. } = &out[0] {
        assert_eq!(items.len(), 2);
        assert_eq!(items[1].0, 1);
    } else {
        panic!("list expected");
    }
}

#[test]
fn table_caption_folded_into_table() {
    let input = vec![
        para(vec![plain_run("Table 1: Results")]),
        Element::Table { rows: vec![vec![docx2tex::model::Cell { runs: vec![plain_run("x")] }]], caption: None },
    ];
    let out = fold_captions(input);
    assert_eq!(out.len(), 1);
    if let Element::Table { caption, .. } = &out[0] {
        assert_eq!(caption.as_deref(), Some("Results"));
    } else {
        panic!("table expected");
    }
}

#[test]
fn normalize_runs_every_pass() {
    let input = vec![
        para(vec![plain_run("Intro")]),
        Element::PageBreak,
        Element::PageBreak,
        para(vec![bold_run("CHAPTER 1: INTRODUCTION")]),
        para(vec![plain_run("• item")]),
    ];
    let out = normalize(input);
    assert!(matches!(out[1], Element::PageBreak));
    assert!(matches!(out[2], Element::Heading { level: 1, .. }));
    assert!(matches!(out[3], Element::List { .. }));
    assert_eq!(out.len(), 4);
}

#[test]
fn heading_length_counts_characters() {
    let accented: String = std::iter::repeat('\u{C9}').take(61).collect();
    assert_eq!(accented.len(), 122);
    assert_eq!(detect_heading_level(&vec![bold_run(&accented)]), Some(2));
    let long: String = std::iter::repeat('A').take(121).collect();
    assert_eq!(detect_heading_level(&vec![bold_run(&long)]), None);
    let limit: String = std::iter::repeat('A').take(120).collect();
    assert_eq!(detect_heading_level(&vec![bold_run(&limit)]), Some(2));
}
