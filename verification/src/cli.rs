//! Command-line vocabulary: the subcommands, their arguments and the template
//! presets.  The argument parser itself lives in the application around the
//! library; these are the plain values it hands over.
use vstd::prelude::*;

verus! {

/// LaTeX template preset.
#[derive(Clone, Copy, Debug, Default, PartialEq, Eq, Structural)]
pub enum Template {
    /// General-purpose article (12pt, A4, sensible margins).
    #[default]
    Default,
    /// IEEE Transactions / Conference format (IEEEtran, two-column).
    Ieee,
    /// Academic thesis (report class, fancy headers, natbib).
    Thesis,
}

/// Arguments of the `convert` subcommand.
#[derive(Debug)]
pub struct ConvertArgs {
    /// Path to the input .docx file.
    pub input: String,
    /// Directory to write the output files into (defaults to the input's directory).
    pub output: Option<String>,
    /// LaTeX document template to use.
    pub template: Template,
    /// Compile the generated .tex file to PDF using pdflatex or tectonic.
    pub compile_pdf: bool,
}

/// Arguments of the `validate` subcommand.
#[derive(Debug)]
pub struct ValidateArgs {
    /// Path to the input .docx file.
    pub input: String,
}

/// The subcommands.
#[derive(Debug)]
pub enum Command {
    /// Convert a .docx file to .tex (and optionally to PDF).
    Convert(ConvertArgs),
    /// Parse a .docx file and print a human-readable document structure summary.
    Validate(ValidateArgs),
}

/// The top-level command line.
#[derive(Debug)]
pub struct Cli {
    pub command: Command,
}

/// The name of a template preset as the command line spells it.
pub open spec fn template_name_of(t: Template) -> Seq<char> {
    match t {
        Template::Default => "default"@,
        Template::Ieee => "ieee"@,
        Template::Thesis => "thesis"@,
    }
}

/// The name of a template preset as the command line spells it.
pub fn template_name(t: &Template) -> (r: &'static str)
    ensures
        r@ == template_name_of(*t),
{
    match t {
        Template::Default => "default",
        Template::Ieee => "ieee",
        Template::Thesis => "thesis",
    }
}

/// Each preset has its own name on the command line:
/// `default`, `ieee` and `thesis`.
pub proof fn lemma_template_names(a: Template, b: Template)
    ensures
        template_name_of(a) == template_name_of(b) ==> a == b,
        template_name_of(Template::Default) == "default"@,
        template_name_of(Template::Ieee) == "ieee"@,
        template_name_of(Template::Thesis) == "thesis"@,
{
    reveal_strlit("default");
    reveal_strlit("ieee");
    reveal_strlit("thesis");
    assert("default"@.len() == 7 && "ieee"@.len() == 4 && "thesis"@.len() == 6);
}

} // verus!
