use docx2tex::auth::check;
use docx2tex::cli::{template_name, Template};
use docx2tex::output::{check_extension, output_dir_for, pdf_output_path, tex_path_for};

#[test]
fn only_docx_inputs_are_accepted() {
    assert!(check_extension("thesis.docx").is_ok());
    assert_eq!(
        check_extension("notes.txt").unwrap_err(),
        "Input file must have a .docx extension, got: notes.txt"
    );
    assert!(check_extension("upper.DOCX").is_err());
}

#[test]
fn output_directory_defaults_to_the_input_directory() {
    assert_eq!(output_dir_for("in/thesis.docx", &Some("out".to_owned())), "out");
    assert_eq!(output_dir_for("in/thesis.docx", &None), "in");
    assert_eq!(output_dir_for("thesis.docx", &None), "");
}

#[test]
fn tex_name_replaces_spaces() {
    assert_eq!(tex_path_for("in/my thesis v2.docx", "out").unwrap(), "out/my_thesis_v2.tex");
    assert_eq!(tex_path_for("/", "out").unwrap_err(), "Input file has no stem");
}

#[test]
fn pdf_lands_next_to_the_tex_file() {
    assert_eq!(pdf_output_path("out/report.tex", "out").unwrap(), "out/report.pdf");
    assert_eq!(pdf_output_path("..", "out").unwrap_err(), "Input file has no stem");
}

#[test]
fn access_is_always_granted() {
    assert!(check().is_ok());
}

#[test]
fn template_names() {
    assert_eq!(template_name(&Template::Default), "default");
    assert_eq!(template_name(&Template::Ieee), "ieee");
    assert_eq!(template_name(&Template::Thesis), "thesis");
    assert_eq!(Template::default(), Template::Default);
}
