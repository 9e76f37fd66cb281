//! Where `convert` writes its files: the output directory, the `.tex` file
//! and the PDF that a LaTeX compiler produces next to it.
use vstd::prelude::*;
use crate::model::opt_view;
use crate::media::{or_else, path_extension, path_extension_of, path_file_stem, path_file_stem_of};
use crate::text::{chars_of, push_char};

verus! {

broadcast use vstd::string::group_string_axioms;

/// What `Path::parent` gives for a path written as text, under the
/// path rules of the platform the library is built for.
pub uninterp spec fn path_parent_of(path: Seq<char>) -> Option<Seq<char>>;

/// What `Path::join` gives for two paths written as text, under the
/// path rules of the platform the library is built for.
pub uninterp spec fn path_join_of(base: Seq<char>, path: Seq<char>) -> Seq<char>;

/// `std::path::Path::parent` of a path given as text.
#[verifier::external_body]
fn path_parent(path: &str) -> (r: Option<String>)
    ensures
        opt_view(r) == path_parent_of(path@),
{
    std::path::Path::new(path).parent().map(|p| p.to_string_lossy().into_owned())
}

/// `std::path::Path::join` of two paths given as text.
#[verifier::external_body]
fn path_join(base: &str, path: &str) -> (r: String)
    ensures
        r@ == path_join_of(base@, path@),
{
    std::path::Path::new(base).join(path).to_string_lossy().into_owned()
}

/// The input names a `.docx` file (its extension is exactly `docx`).
pub open spec fn is_docx_path(input: Seq<char>) -> bool {
    path_extension_of(input) == Some("docx"@)
}

/// Checks the input's extension; the error names the input.
pub fn check_extension(input: &str) -> (r: Result<(), String>)
    ensures
        r is Ok == is_docx_path(input@),
        r matches Err(m) ==> m@ == "Input file must have a .docx extension, got: "@ + input@,
{
    let ok = match path_extension(input) {
        Some(e) => crate::docx::is_str(&chars_of(e.as_str()), "docx"),
        None => false,
    };
    if ok {
        Ok(())
    } else {
        let mut m = String::from_str("Input file must have a .docx extension, got: ");
        m.append(input);
        Err(m)
    }
}

/// The output directory: the one given, else the input's directory (`.`
/// when it has none).
pub open spec fn output_dir_of(input: Seq<char>, output: Option<Seq<char>>) -> Seq<char> {
    match output {
        Some(d) => d,
        None => or_else(path_parent_of(input), "."@),
    }
}

pub fn output_dir_for(input: &str, output: &Option<String>) -> (r: String)
    ensures
        r@ == output_dir_of(input@, opt_view(*output)),
{
    match output {
        Some(d) => d.clone(),
        None => match path_parent(input) {
            Some(p) => p,
            None => String::from_str("."),
        },
    }
}

pub open spec fn underscore(c: char) -> char {
    if c == ' ' { '_' } else { c }
}

/// The file name of the `.tex` output: the input's stem with spaces made
/// underscores (TeX engines stumble on spaces in file names), and `.tex`.
pub open spec fn tex_name_of(input: Seq<char>) -> Option<Seq<char>> {
    match path_file_stem_of(input) {
        Some(s) => Some(s.map_values(|c: char| underscore(c)) + ".tex"@),
        None => None,
    }
}

pub open spec fn no_stem() -> Seq<char> {
    "Input file has no stem"@
}

/// The path of the `.tex` output in `output_dir`; an error when the input
/// has no file stem.
pub fn tex_path_for(input: &str, output_dir: &str) -> (r: Result<String, String>)
    ensures
        match tex_name_of(input@) {
            Some(n) => r matches Ok(p) && p@ == path_join_of(output_dir@, n),
            None => r matches Err(m) && m@ == no_stem(),
        },
{
    match path_file_stem(input) {
        Some(stem) => {
            let v = chars_of(stem.as_str());
            let mut name = String::new();
            let mut i: usize = 0;
            while i < v.len()
                invariant
                    i <= v.len(),
                    name@ == v@.take(i as int).map_values(|c: char| underscore(c)),
                decreases v.len() - i,
            {
                push_char(&mut name, if v[i] == ' ' { '_' } else { v[i] });
                i += 1;
                assert(name@ =~= v@.take(i as int).map_values(|c: char| underscore(c)));
            }
            assert(v@.take(i as int) =~= v@);
            name.append(".tex");
            Ok(path_join(output_dir, name.as_str()))
        },
        None => Err(String::from_str("Input file has no stem")),
    }
}

/// The PDF a compiler writes for `tex_path` into `output_dir`: the `.tex`
/// file's stem and `.pdf`; an error when it has no stem.
pub fn pdf_output_path(tex_path: &str, output_dir: &str) -> (r: Result<String, String>)
    ensures
        match path_file_stem_of(tex_path@) {
            Some(s) => r matches Ok(p) && p@ == path_join_of(output_dir@, s + ".pdf"@),
            None => r matches Err(m) && m@ == no_stem(),
        },
{
    match path_file_stem(tex_path) {
        Some(mut stem) => {
            stem.append(".pdf");
            Ok(path_join(output_dir, stem.as_str()))
        },
        None => Err(String::from_str("Input file has no stem")),
    }
}

/// The `.tex` file is named after the input's stem with every space made an
/// underscore: the name ends in `.tex` and holds no space before it.
pub proof fn lemma_tex_name(input: Seq<char>)
    ensures
        tex_name_of(input) matches Some(n) ==> n.len() >= 4 && n.skip(n.len() - 4) == ".tex"@
            && forall|i: int| 0 <= i < n.len() - 4 ==> n[i] != ' ',
{
    reveal_strlit(".tex");
    match path_file_stem_of(input) {
        Some(st) => {
            let m = st.map_values(|c: char| underscore(c));
            let n = m + ".tex"@;
            assert(n.skip(n.len() - 4) =~= ".tex"@);
            assert forall|i: int| 0 <= i < n.len() - 4 implies n[i] != ' ' by {
                assert(n[i] == m[i]);
            }
        },
        None => {},
    }
}

} // verus!
