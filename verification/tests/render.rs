use docx2tex::cli::Template;
use docx2tex::model::{Cell, Document, Element, Run};
use docx2tex::renderer::{
    column_count, column_stats, emit_nested_list, emit_runs, emit_table, heading_command, is_front_matter_heading,
    render, strip_heading_number_prefix, strip_runs_prefix,
};

fn run(text: &str) -> Run {
    Run { text: text.to_owned(), ..Default::default() }
}

fn chars(s: &str) -> Vec<char> {
    s.chars().collect()
}

fn cell(text: &str) -> Cell {
    Cell { runs: vec![run(text)] }
}

#[test]
fn run_formatting_wraps_innermost_first() {
    let r = Run {
        text: "x_1".to_owned(),
        bold: true,
        italic: true,
        mono: true,
        hyperlink: Some("http://a.b/#c".to_owned()),
        ..Default::default()
    };
    let mut out = String::new();
    emit_runs(&mut out, &vec![r, run(" & more")]);
    assert_eq!(out, "\\href{http://a.b/\\#c}{\\textit{\\textbf{\\texttt{x\\_1}}}} \\& more");
}

#[test]
fn heading_commands_per_template() {
    assert_eq!(heading_command(1, &Template::Default), "section");
    assert_eq!(heading_command(4, &Template::Ieee), "paragraph");
    assert_eq!(heading_command(1, &Template::Thesis), "chapter");
}

#[test]
fn heading_number_prefixes_are_stripped() {
    let stripped = |s: &str| -> String {
        let t = chars(s);
        let (start, end) = strip_heading_number_prefix(&t);
        t[start..end].iter().collect()
    };
    let t = chars("CHAPTER 1: INTRODUCTION");
    assert_eq!(strip_heading_number_prefix(&t), ("CHAPTER 1: ".len(), t.len()));
    assert_eq!(strip_heading_number_prefix(&chars("1.2 Background")), (4, 14));
    assert_eq!(strip_heading_number_prefix(&chars("Background")), (0, 10));
    let cases = [
        ("CHAPTER 1: INTRODUCTION", "INTRODUCTION"),
        ("Chapter 2 - Methods", "Methods"),
        ("1. Introduction", "Introduction"),
        ("1.1 Background", "Background"),
        ("1.2.3 Sub-section", "Sub-section"),
        ("CHAPTER 1", "CHAPTER 1"),
        ("  Background ", "Background"),
        ("  2.1  Results  ", "Results"),
        ("   ", ""),
    ];
    for (input, expected) in cases {
        assert_eq!(stripped(input), expected);
    }
    let runs = strip_runs_prefix(&vec![run("1.2 "), run("Back"), run("ground")]);
    let text: String = runs.iter().map(|r| r.text.as_str()).collect();
    assert_eq!(text, "Background");
}

#[test]
fn front_matter_keywords() {
    assert!(is_front_matter_heading(&chars("ABSTRACT")));
    assert!(is_front_matter_heading(&chars("Declaration")));
    assert!(!is_front_matter_heading(&chars("Methodology")));
}

#[test]
fn nested_lists_open_and_close_environments() {
    let mut out = String::new();
    emit_nested_list(&mut out, false, &vec![(0, vec![run("a")]), (1, vec![run("b")]), (0, vec![run("c")])]);
    assert!(out.starts_with("\\begin{itemize}\n"));
    assert!(out.ends_with("\\end{itemize}\n"));
    assert_eq!(out.matches("\\begin{itemize}").count(), out.matches("\\end{itemize}").count());
    assert!(out.contains("\\item b"));
}

#[test]
fn tables_use_given_widths() {
    let mut out = String::new();
    let rows = vec![vec![cell("A"), cell("B")], vec![cell("1"), cell("2")]];
    emit_table(&mut out, &rows, &Template::Ieee, &Some("Results & more".to_owned()), &vec![150, 875]);
    assert!(out.contains("  \\caption{Results \\& more}\n"));
    assert!(out.contains("p{1.50cm}|>{\\raggedright\\arraybackslash}p{8.75cm}|"));
    assert!(out.contains("}\n    \\hline\n    A & B \\\\\n    \\hline\n    1 & 2 \\\\\n    \\hline\n  \\end{tabular}"));
}

#[test]
fn booktabs_rules_outside_ieee() {
    let rows = vec![vec![cell("A"), cell("B")], vec![cell("1"), cell("2")]];
    for t in [Template::Default, Template::Thesis] {
        let mut out = String::new();
        emit_table(&mut out, &rows, &t, &None, &vec![150, 875]);
        assert!(out.contains("}\n    \\toprule\n    A & B \\\\\n    \\midrule\n    1 & 2 \\\\\n    \\bottomrule\n  \\end{tabular}"));
        assert!(!out.contains("\\hline"));
    }
}

#[test]
fn ieee_preamble_loads_hyperref() {
    let doc = Document { title: None, elements: vec![] };
    for t in [Template::Default, Template::Ieee, Template::Thesis] {
        assert!(render(&doc, &t, &vec![]).contains("\\usepackage{hyperref}\n"));
    }
}

#[test]
fn column_statistics() {
    let rows = vec![vec![cell("abc"), cell("é")], vec![cell("x")]];
    assert_eq!(column_count(&rows), 2);
    assert_eq!(column_stats(&rows, 2), Some(vec![(4, 2), (2, 1)]));
}

#[test]
fn whole_document_renders_in_order() {
    let doc = Document {
        title: Some("A & B".to_owned()),
        elements: vec![
            Element::Heading { level: 1, runs: vec![run("Intro")] },
            Element::Paragraph { runs: vec![run("Hello.")] },
            Element::PageBreak,
            Element::Image { path: "media/fig.emf".to_owned(), width_emu: None, caption: None },
        ],
    };
    let out = render(&doc, &Template::Default, &vec![]);
    assert!(out.contains("\\title{A \\& B}"));
    let intro = out.find("\\section{Intro}").unwrap();
    let hello = out.find("Hello.\n\n").unwrap();
    let clear = out.find("\\clearpage").unwrap();
    assert!(intro < hello && hello < clear);
    assert!(out.contains("% [image skipped: 'media/fig.emf' is not supported by pdfLaTeX"));
    assert!(out.ends_with("\\end{document}\n"));
}

#[test]
fn image_width_in_centimetres() {
    let doc = Document {
        title: None,
        elements: vec![Element::Image { path: "media/a.png".to_owned(), width_emu: Some(914_400), caption: Some("Cap".to_owned()) }],
    };
    let out = render(&doc, &Template::Ieee, &vec![]);
    assert!(out.contains("\\includegraphics[width=2.54cm]{media/a.png}\n  \\caption{Cap}\n"));
}

#[test]
fn converted_elements_follow_the_usage_table() {
    let fmt = |r: Run| {
        let mut out = String::new();
        emit_runs(&mut out, &vec![r]);
        out
    };
    assert_eq!(fmt(Run { text: "u".to_owned(), underline: true, ..Default::default() }), "\\uline{u}");
    assert_eq!(fmt(Run { text: "2".to_owned(), superscript: true, ..Default::default() }), "\\textsuperscript{2}");
    assert_eq!(fmt(Run { text: "i".to_owned(), subscript: true, ..Default::default() }), "\\textsubscript{i}");
    assert_eq!(fmt(Run { text: "code".to_owned(), mono: true, ..Default::default() }), "\\texttt{code}");
    let mut out = String::new();
    emit_nested_list(&mut out, true, &vec![(0, vec![run("first")])]);
    assert_eq!(out, "\\begin{enumerate}\n  \\item first\n\\end{enumerate}\n");
}

#[test]
fn thesis_level_one_headings_are_chapters() {
    let doc = Document {
        title: None,
        elements: vec![
            Element::Heading { level: 1, runs: vec![run("CHAPTER 1: INTRODUCTION")] },
            Element::Heading { level: 2, runs: vec![run("1.1 Background")] },
        ],
    };
    let out = render(&doc, &Template::Thesis, &vec![]);
    assert!(out.contains("\\chapter{INTRODUCTION}\n"));
    assert!(out.contains("\\section{Background}\n"));
    assert!(!out.contains("\\maketitle"));
}

#[test]
fn every_document_is_framed_by_its_template() {
    let doc = Document { title: Some("A & B".to_owned()), elements: vec![Element::Paragraph { runs: vec![run("x")] }] };
    let cases = [
        (Template::Default, "\\documentclass[12pt,a4paper]{article}\n"),
        (Template::Ieee, "\\documentclass[conference]{IEEEtran}\n"),
        (Template::Thesis, "\\documentclass[12pt,a4paper,oneside]{report}\n"),
    ];
    for (t, first) in cases {
        let out = render(&doc, &t, &vec![]);
        assert!(out.starts_with(first));
        assert!(out.ends_with("\\end{document}\n"));
        let thesis = matches!(t, Template::Thesis);
        assert_eq!(out.contains("\\begin{document}\n\n\\maketitle"), !thesis);
        assert_eq!(out.contains("\\begin{document}\n\n\\begin{titlepage}"), thesis);
        assert_eq!(out.contains("\\title{A \\& B}\n\\author{}\n\\date{\\today}\n"), !thesis);
        assert_eq!(out.contains("\\title{"), !thesis);
    }
    let untitled = Document { title: None, elements: vec![] };
    assert!(render(&untitled, &Template::Default, &vec![]).contains("\\title{Untitled}\n"));
}
