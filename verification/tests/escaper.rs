use docx2tex::escaper::{escape, escape_url};

#[test]
fn basic_escapes() {
    assert_eq!(escape("100% done"), r"100\% done");
    assert_eq!(escape("$price"), r"\$price");
    assert_eq!(escape("a & b"), r"a \& b");
    assert_eq!(escape("x_i^2"), r"x\_i\textasciicircum{}2");
    assert_eq!(escape(r"C:\path"), r"C:\textbackslash{}path");
}

#[test]
fn url_escapes() {
    assert_eq!(escape_url("http://example.com/path"), "http://example.com/path");
    // & passes through unchanged — hyperref handles it natively in \href{}
    assert_eq!(escape_url("foo?a=1&b=2"), "foo?a=1&b=2");
    assert_eq!(escape_url("path#section"), "path\\#section");
    // % in an already-encoded URL is escaped to \% so TeX doesn't treat it as a comment
    assert_eq!(escape_url("already%20encoded"), "already\\%20encoded");
}

#[test]
fn empty_string() {
    assert_eq!(escape(""), "");
}

#[test]
fn no_special_chars() {
    let s = "Hello, world!";
    assert_eq!(escape(s), s);
}

#[test]
fn escape_of_concatenation_is_concatenation_of_escapes() {
    let a = "50% of {x}";
    let b = "~and_#more$";
    let joined = format!("{a}{b}");
    assert_eq!(escape(&joined), format!("{}{}", escape(a), escape(b)));
    assert_eq!(escape_url(&joined), format!("{}{}", escape_url(a), escape_url(b)));
}

#[test]
fn all_special_characters_are_escaped() {
    assert_eq!(escape("&%$#_{}~^\\"), "\\&\\%\\$\\#\\_\\{\\}\\textasciitilde{}\\textasciicircum{}\\textbackslash{}");
}

#[test]
fn url_keeps_plain_characters() {
    assert_eq!(escape_url("https://a.b/c?d=e&f=g"), "https://a.b/c?d=e&f=g");
    assert_eq!(escape_url("a~b_c{d}"), "a~b_c{d}");
}

#[test]
fn specials_never_come_out_raw() {
    let out = escape("a~b^c & 50% $x #1 snake_case \u{200B}\u{FEFF}\u{2061}");
    for bad in ['~', '^', '\u{200B}', '\u{FEFF}', '\u{2061}'] {
        assert!(!out.contains(bad));
    }
    let cs: Vec<char> = out.chars().collect();
    for (i, c) in cs.iter().enumerate() {
        if "&%$#_".contains(*c) {
            assert!(i > 0 && cs[i - 1] == '\\');
        }
    }
}
