pub mod text;
pub mod escaper;
pub mod model;
pub mod cli;
pub mod normalizer;
pub mod normalizer_laws;
pub mod renderer;
pub mod xml;
pub mod docx;
pub mod document_xml;
pub mod document_laws;
pub mod media;
pub mod package;
pub mod report;
pub mod output;
pub mod auth;
