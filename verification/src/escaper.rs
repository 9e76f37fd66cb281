//! LaTeX special-character escaping.
//!
//! LaTeX treats `&  %  $  #  _  {  }  ~  ^  \` specially; they are replaced by
//! their command forms before text is emitted into a `.tex` file.  Typographic
//! quotes and dashes become their TeX ligature spellings, a set of Unicode
//! symbols and Greek letters become math-mode commands wrapped in
//! `\ensuremath{}`, and a few invisible formatting characters are dropped.
use vstd::prelude::*;
use crate::text::push_char;

verus! {

broadcast use vstd::string::group_string_axioms;

/// What `escape` emits for one input character.
pub open spec fn escaped_char(c: char) -> Seq<char> {
    match c {
        '\\' => "\\textbackslash{}"@,
        '&' => "\\&"@,
        '%' => "\\%"@,
        '$' => "\\$"@,
        '#' => "\\#"@,
        '_' => "\\_"@,
        '{' => "\\{"@,
        '}' => "\\}"@,
        '~' => "\\textasciitilde{}"@,
        '^' => "\\textasciicircum{}"@,
        '\u{2019}' => "'"@,
        '\u{2018}' => "`"@,
        '\u{201C}' => "``"@,
        '\u{201D}' => "''"@,
        '\u{2014}' => "---"@,
        '\u{2013}' => "--"@,
        '\u{2713}' | '\u{2714}' => "\\checkmark"@,
        '\u{2717}' | '\u{2718}' | '\u{2715}' => "\\ensuremath{\\times}"@,
        '\u{2022}' => "\\textbullet{}"@,
        '\u{25AA}' | '\u{25B8}' | '\u{25BA}' => "\\ensuremath{\\blacksquare}"@,
        '\u{2192}' => "\\ensuremath{\\rightarrow}"@,
        '\u{2190}' => "\\ensuremath{\\leftarrow}"@,
        '\u{2194}' => "\\ensuremath{\\leftrightarrow}"@,
        '\u{21D2}' => "\\ensuremath{\\Rightarrow}"@,
        '\u{21D4}' => "\\ensuremath{\\Leftrightarrow}"@,
        '\u{2264}' => "\\ensuremath{\\leq}"@,
        '\u{2265}' => "\\ensuremath{\\geq}"@,
        '\u{2260}' => "\\ensuremath{\\neq}"@,
        '\u{2248}' => "\\ensuremath{\\approx}"@,
        '\u{221D}' => "\\ensuremath{\\propto}"@,
        '\u{B1}' => "\\ensuremath{\\pm}"@,
        '\u{2213}' => "\\ensuremath{\\mp}"@,
        '\u{2212}' => "\\ensuremath{-}"@,
        '\u{D7}' => "\\ensuremath{\\times}"@,
        '\u{F7}' => "\\ensuremath{\\div}"@,
        '\u{221E}' => "\\ensuremath{\\infty}"@,
        '\u{2208}' => "\\ensuremath{\\in}"@,
        '\u{2209}' => "\\ensuremath{\\notin}"@,
        '\u{2282}' => "\\ensuremath{\\subset}"@,
        '\u{2286}' => "\\ensuremath{\\subseteq}"@,
        '\u{222A}' => "\\ensuremath{\\cup}"@,
        '\u{2229}' => "\\ensuremath{\\cap}"@,
        '\u{2211}' => "\\ensuremath{\\sum}"@,
        '\u{220F}' => "\\ensuremath{\\prod}"@,
        '\u{222B}' => "\\ensuremath{\\int}"@,
        '\u{221A}' => "\\ensuremath{\\sqrt{}}"@,
        '\u{2202}' => "\\ensuremath{\\partial}"@,
        '\u{2207}' => "\\ensuremath{\\nabla}"@,
        '\u{2206}' => "\\ensuremath{\\Delta}"@,
        '\u{2234}' => "\\ensuremath{\\therefore}"@,
        '\u{2235}' => "\\ensuremath{\\because}"@,
        '\u{2225}' => "\\ensuremath{\\parallel}"@,
        '\u{22A5}' => "\\ensuremath{\\perp}"@,
        '\u{2220}' => "\\ensuremath{\\angle}"@,
        '\u{2200}' => "\\ensuremath{\\forall}"@,
        '\u{2203}' => "\\ensuremath{\\exists}"@,
        '\u{AC}' => "\\ensuremath{\\neg}"@,
        '\u{2227}' => "\\ensuremath{\\wedge}"@,
        '\u{2228}' => "\\ensuremath{\\vee}"@,
        '\u{3B1}' => "\\ensuremath{\\alpha}"@,
        '\u{3B2}' => "\\ensuremath{\\beta}"@,
        '\u{3B3}' => "\\ensuremath{\\gamma}"@,
        '\u{3B4}' => "\\ensuremath{\\delta}"@,
        '\u{3B5}' => "\\ensuremath{\\varepsilon}"@,
        '\u{3B6}' => "\\ensuremath{\\zeta}"@,
        '\u{3B7}' => "\\ensuremath{\\eta}"@,
        '\u{3B8}' => "\\ensuremath{\\theta}"@,
        '\u{3B9}' => "\\ensuremath{\\iota}"@,
        '\u{3BA}' => "\\ensuremath{\\kappa}"@,
        '\u{3BB}' => "\\ensuremath{\\lambda}"@,
        '\u{3BC}' => "\\ensuremath{\\mu}"@,
        '\u{3BD}' => "\\ensuremath{\\nu}"@,
        '\u{3BE}' => "\\ensuremath{\\xi}"@,
        '\u{3C0}' => "\\ensuremath{\\pi}"@,
        '\u{3C1}' => "\\ensuremath{\\rho}"@,
        '\u{3C3}' => "\\ensuremath{\\sigma}"@,
        '\u{3C4}' => "\\ensuremath{\\tau}"@,
        '\u{3C5}' => "\\ensuremath{\\upsilon}"@,
        '\u{3C6}' => "\\ensuremath{\\varphi}"@,
        '\u{3C7}' => "\\ensuremath{\\chi}"@,
        '\u{3C8}' => "\\ensuremath{\\psi}"@,
        '\u{3C9}' => "\\ensuremath{\\omega}"@,
        '\u{393}' => "\\ensuremath{\\Gamma}"@,
        '\u{394}' => "\\ensuremath{\\Delta}"@,
        '\u{398}' => "\\ensuremath{\\Theta}"@,
        '\u{39B}' => "\\ensuremath{\\Lambda}"@,
        '\u{39E}' => "\\ensuremath{\\Xi}"@,
        '\u{3A0}' => "\\ensuremath{\\Pi}"@,
        '\u{3A3}' => "\\ensuremath{\\Sigma}"@,
        '\u{3A5}' => "\\ensuremath{\\Upsilon}"@,
        '\u{3A6}' => "\\ensuremath{\\Phi}"@,
        '\u{3A7}' => "\\ensuremath{\\Chi}"@,
        '\u{3A8}' => "\\ensuremath{\\Psi}"@,
        '\u{3A9}' => "\\ensuremath{\\Omega}"@,
        '\u{2061}' => Seq::empty(),
        '\u{200B}' => Seq::empty(),
        '\u{FEFF}' => Seq::empty(),
        '\u{B0}' => "\\textdegree{}"@,
        '\u{A9}' => "\\textcopyright{}"@,
        '\u{AE}' => "\\textregistered{}"@,
        '\u{2122}' => "\\texttrademark{}"@,
        '\u{2026}' => "\\ldots{}"@,
        '\u{20AC}' => "\\texteuro{}"@,
        '\u{A3}' => "\\pounds{}"@,
        '\u{A7}' => "\\S{}"@,
        '\u{B6}' => "\\P{}"@,
        '\u{F8F1}' | '\u{F8F2}' | '\u{F8F3}' => Seq::empty(),
        _ => seq![c],
    }
}

/// What `escape` emits for a whole text: the replacements of its characters, in order.
pub open spec fn escaped(s: Seq<char>) -> Seq<char>
    decreases s.len(),
{
    if s.len() == 0 {
        Seq::empty()
    } else {
        escaped(s.drop_last()) + escaped_char(s.last())
    }
}

/// A character that `escape` leaves as it is.
pub open spec fn is_plain(c: char) -> bool {
    escaped_char(c) == seq![c]
}

/// Escape a plain-text string so it is safe to embed in a LaTeX document body.
pub fn escape(s: &str) -> (out: String)
    ensures
        out@ == escaped(s@),
{
    let cs = crate::text::chars_of(s);
    let mut out = String::new();
    let mut i: usize = 0;
    while i < cs.len()
        invariant
            i <= cs.len(),
            cs@ == s@,
            out@ == escaped(cs@.take(i as int)),
        decreases cs.len() - i,
    {
        let c = cs[i];
        let ghost before = out@;
        match c {
            '\\' => out.append("\\textbackslash{}"),
            '&' => out.append("\\&"),
            '%' => out.append("\\%"),
            '$' => out.append("\\$"),
            '#' => out.append("\\#"),
            '_' => out.append("\\_"),
            '{' => out.append("\\{"),
            '}' => out.append("\\}"),
            '~' => out.append("\\textasciitilde{}"),
            '^' => out.append("\\textasciicircum{}"),
            '\u{2019}' => out.append("'"),
            '\u{2018}' => out.append("`"),
            '\u{201C}' => out.append("``"),
            '\u{201D}' => out.append("''"),
            '\u{2014}' => out.append("---"),
            '\u{2013}' => out.append("--"),
            '\u{2713}' | '\u{2714}' => out.append("\\checkmark"),
            '\u{2717}' | '\u{2718}' | '\u{2715}' => out.append("\\ensuremath{\\times}"),
            '\u{2022}' => out.append("\\textbullet{}"),
            '\u{25AA}' | '\u{25B8}' | '\u{25BA}' => out.append("\\ensuremath{\\blacksquare}"),
            '\u{2192}' => out.append("\\ensuremath{\\rightarrow}"),
            '\u{2190}' => out.append("\\ensuremath{\\leftarrow}"),
            '\u{2194}' => out.append("\\ensuremath{\\leftrightarrow}"),
            '\u{21D2}' => out.append("\\ensuremath{\\Rightarrow}"),
            '\u{21D4}' => out.append("\\ensuremath{\\Leftrightarrow}"),
            '\u{2264}' => out.append("\\ensuremath{\\leq}"),
            '\u{2265}' => out.append("\\ensuremath{\\geq}"),
            '\u{2260}' => out.append("\\ensuremath{\\neq}"),
            '\u{2248}' => out.append("\\ensuremath{\\approx}"),
            '\u{221D}' => out.append("\\ensuremath{\\propto}"),
            '\u{B1}' => out.append("\\ensuremath{\\pm}"),
            '\u{2213}' => out.append("\\ensuremath{\\mp}"),
            '\u{2212}' => out.append("\\ensuremath{-}"),
            '\u{D7}' => out.append("\\ensuremath{\\times}"),
            '\u{F7}' => out.append("\\ensuremath{\\div}"),
            '\u{221E}' => out.append("\\ensuremath{\\infty}"),
            '\u{2208}' => out.append("\\ensuremath{\\in}"),
            '\u{2209}' => out.append("\\ensuremath{\\notin}"),
            '\u{2282}' => out.append("\\ensuremath{\\subset}"),
            '\u{2286}' => out.append("\\ensuremath{\\subseteq}"),
            '\u{222A}' => out.append("\\ensuremath{\\cup}"),
            '\u{2229}' => out.append("\\ensuremath{\\cap}"),
            '\u{2211}' => out.append("\\ensuremath{\\sum}"),
            '\u{220F}' => out.append("\\ensuremath{\\prod}"),
            '\u{222B}' => out.append("\\ensuremath{\\int}"),
            '\u{221A}' => out.append("\\ensuremath{\\sqrt{}}"),
            '\u{2202}' => out.append("\\ensuremath{\\partial}"),
            '\u{2207}' => out.append("\\ensuremath{\\nabla}"),
            '\u{2206}' => out.append("\\ensuremath{\\Delta}"),
            '\u{2234}' => out.append("\\ensuremath{\\therefore}"),
            '\u{2235}' => out.append("\\ensuremath{\\because}"),
            '\u{2225}' => out.append("\\ensuremath{\\parallel}"),
            '\u{22A5}' => out.append("\\ensuremath{\\perp}"),
            '\u{2220}' => out.append("\\ensuremath{\\angle}"),
            '\u{2200}' => out.append("\\ensuremath{\\forall}"),
            '\u{2203}' => out.append("\\ensuremath{\\exists}"),
            '\u{AC}' => out.append("\\ensuremath{\\neg}"),
            '\u{2227}' => out.append("\\ensuremath{\\wedge}"),
            '\u{2228}' => out.append("\\ensuremath{\\vee}"),
            '\u{3B1}' => out.append("\\ensuremath{\\alpha}"),
            '\u{3B2}' => out.append("\\ensuremath{\\beta}"),
            '\u{3B3}' => out.append("\\ensuremath{\\gamma}"),
            '\u{3B4}' => out.append("\\ensuremath{\\delta}"),
            '\u{3B5}' => out.append("\\ensuremath{\\varepsilon}"),
            '\u{3B6}' => out.append("\\ensuremath{\\zeta}"),
            '\u{3B7}' => out.append("\\ensuremath{\\eta}"),
            '\u{3B8}' => out.append("\\ensuremath{\\theta}"),
            '\u{3B9}' => out.append("\\ensuremath{\\iota}"),
            '\u{3BA}' => out.append("\\ensuremath{\\kappa}"),
            '\u{3BB}' => out.append("\\ensuremath{\\lambda}"),
            '\u{3BC}' => out.append("\\ensuremath{\\mu}"),
            '\u{3BD}' => out.append("\\ensuremath{\\nu}"),
            '\u{3BE}' => out.append("\\ensuremath{\\xi}"),
            '\u{3C0}' => out.append("\\ensuremath{\\pi}"),
            '\u{3C1}' => out.append("\\ensuremath{\\rho}"),
            '\u{3C3}' => out.append("\\ensuremath{\\sigma}"),
            '\u{3C4}' => out.append("\\ensuremath{\\tau}"),
            '\u{3C5}' => out.append("\\ensuremath{\\upsilon}"),
            '\u{3C6}' => out.append("\\ensuremath{\\varphi}"),
            '\u{3C7}' => out.append("\\ensuremath{\\chi}"),
            '\u{3C8}' => out.append("\\ensuremath{\\psi}"),
            '\u{3C9}' => out.append("\\ensuremath{\\omega}"),
            '\u{393}' => out.append("\\ensuremath{\\Gamma}"),
            '\u{394}' => out.append("\\ensuremath{\\Delta}"),
            '\u{398}' => out.append("\\ensuremath{\\Theta}"),
            '\u{39B}' => out.append("\\ensuremath{\\Lambda}"),
            '\u{39E}' => out.append("\\ensuremath{\\Xi}"),
            '\u{3A0}' => out.append("\\ensuremath{\\Pi}"),
            '\u{3A3}' => out.append("\\ensuremath{\\Sigma}"),
            '\u{3A5}' => out.append("\\ensuremath{\\Upsilon}"),
            '\u{3A6}' => out.append("\\ensuremath{\\Phi}"),
            '\u{3A7}' => out.append("\\ensuremath{\\Chi}"),
            '\u{3A8}' => out.append("\\ensuremath{\\Psi}"),
            '\u{3A9}' => out.append("\\ensuremath{\\Omega}"),
            '\u{2061}' => {},
            '\u{200B}' => {},
            '\u{FEFF}' => {},
            '\u{B0}' => out.append("\\textdegree{}"),
            '\u{A9}' => out.append("\\textcopyright{}"),
            '\u{AE}' => out.append("\\textregistered{}"),
            '\u{2122}' => out.append("\\texttrademark{}"),
            '\u{2026}' => out.append("\\ldots{}"),
            '\u{20AC}' => out.append("\\texteuro{}"),
            '\u{A3}' => out.append("\\pounds{}"),
            '\u{A7}' => out.append("\\S{}"),
            '\u{B6}' => out.append("\\P{}"),
            '\u{F8F1}' | '\u{F8F2}' | '\u{F8F3}' => {},
            other => push_char(&mut out, other),
        }
        proof {
            let s2 = cs@.take(i + 1);
            assert(s2.drop_last() =~= cs@.take(i as int));
            assert(out@ == before + escaped_char(c));
        }
        i += 1;
    }
    assert(cs@.take(i as int) =~= cs@);
    out
}

/// What `escape_url` emits for one input character.
pub open spec fn url_escaped_char(c: char) -> Seq<char> {
    if c == '%' {
        seq!['\\', '%']
    } else if c == '#' {
        seq!['\\', '#']
    } else {
        seq![c]
    }
}

pub open spec fn url_escaped(s: Seq<char>) -> Seq<char>
    decreases s.len(),
{
    if s.len() == 0 {
        Seq::empty()
    } else {
        url_escaped(s.drop_last()) + url_escaped_char(s.last())
    }
}

/// Escape a string intended for use inside a `\href{}` URL argument.
///
/// Only the characters that TeX itself would misinterpret are escaped:
/// `%` becomes `\%` (the comment character) and `#` becomes `\#`.
/// `&` is left as it is: `hyperref` reads the URL argument verbatim.
pub fn escape_url(s: &str) -> (out: String)
    ensures
        out@ == url_escaped(s@),
{
    let cs = crate::text::chars_of(s);
    let mut out = String::new();
    let mut i: usize = 0;
    while i < cs.len()
        invariant
            i <= cs.len(),
            cs@ == s@,
            out@ == url_escaped(cs@.take(i as int)),
        decreases cs.len() - i,
    {
        let c = cs[i];
        let ghost before = out@;
        if c == '%' {
            push_char(&mut out, '\\');
            push_char(&mut out, '%');
        } else if c == '#' {
            push_char(&mut out, '\\');
            push_char(&mut out, '#');
        } else {
            push_char(&mut out, c);
        }
        proof {
            let s2 = cs@.take(i + 1);
            assert(s2.drop_last() =~= cs@.take(i as int));
            assert(out@ =~= before + url_escaped_char(c));
        }
        i += 1;
    }
    assert(cs@.take(i as int) =~= cs@);
    out
}

// ── Laws ─────────────────────────────────────────────────────────────────────

/// Escaping works character by character: escaping a concatenation is the
/// concatenation of the escaped parts.
pub proof fn lemma_escape_concat(a: Seq<char>, b: Seq<char>)
    ensures
        escaped(a + b) == escaped(a) + escaped(b),
    decreases b.len(),
{
    if b.len() == 0 {
        assert(a + b =~= a);
        assert(escaped(b) =~= Seq::<char>::empty());
        assert(escaped(a) + escaped(b) =~= escaped(a));
    } else {
        assert((a + b).drop_last() =~= a + b.drop_last());
        lemma_escape_concat(a, b.drop_last());
        assert(escaped(a) + escaped(b) =~= escaped(a) + escaped(b.drop_last()) + escaped_char(b.last()));
    }
}

/// Text made only of characters that need no escaping comes out unchanged.
pub proof fn lemma_escape_plain(s: Seq<char>)
    requires
        forall|i: int| 0 <= i < s.len() ==> is_plain(#[trigger] s[i]),
    ensures
        escaped(s) == s,
    decreases s.len(),
{
    if s.len() > 0 {
        assert(is_plain(s[s.len() - 1]));
        lemma_escape_plain(s.drop_last());
        assert(s.drop_last().push(s.last()) =~= s);
        assert(escaped(s.drop_last()) + seq![s.last()] =~= s.drop_last().push(s.last()));
    }
}

/// URL escaping also works character by character.
pub proof fn lemma_escape_url_concat(a: Seq<char>, b: Seq<char>)
    ensures
        url_escaped(a + b) == url_escaped(a) + url_escaped(b),
    decreases b.len(),
{
    if b.len() == 0 {
        assert(a + b =~= a);
        assert(url_escaped(a) + url_escaped(b) =~= url_escaped(a));
    } else {
        assert((a + b).drop_last() =~= a + b.drop_last());
        lemma_escape_url_concat(a, b.drop_last());
        assert(url_escaped(a) + url_escaped(b) =~= url_escaped(a) + url_escaped(b.drop_last()) + url_escaped_char(b.last()));
    }
}

/// A URL without `%` and `#` comes out of `escape_url` unchanged.
pub proof fn lemma_escape_url_plain(s: Seq<char>)
    requires
        forall|i: int| 0 <= i < s.len() ==> #[trigger] s[i] != '%' && s[i] != '#',
    ensures
        url_escaped(s) == s,
    decreases s.len(),
{
    if s.len() > 0 {
        assert(s[s.len() - 1] != '%');
        lemma_escape_url_plain(s.drop_last());
        assert(s.drop_last().push(s.last()) =~= s);
        assert(url_escaped(s.drop_last()) + seq![s.last()] =~= s.drop_last().push(s.last()));
    }
}

/// The characters LaTeX treats specially.
pub open spec fn is_latex_special(c: char) -> bool {
    c == '&' || c == '%' || c == '$' || c == '#' || c == '_' || c == '{' || c == '}' || c == '~' || c == '^'
        || c == '\\'
}

/// Every LaTeX special character is replaced by a command: it never comes
/// out as itself, and what comes out starts with a backslash.
pub proof fn lemma_specials_escaped(c: char)
    requires
        is_latex_special(c),
    ensures
        escaped(seq![c]) != seq![c],
        escaped(seq![c]).len() >= 2,
        escaped(seq![c])[0] == '\\',
{
    let s = seq![c];
    assert(s.drop_last() =~= Seq::<char>::empty());
    assert(s.last() == c);
    assert(escaped(s.drop_last()) =~= Seq::<char>::empty());
    assert(escaped(s) =~= escaped(s.drop_last()) + escaped_char(c));
    assert(escaped(s) =~= escaped_char(c));
    reveal_strlit("\\textbackslash{}");
    reveal_strlit("\\&");
    reveal_strlit("\\%");
    reveal_strlit("\\$");
    reveal_strlit("\\#");
    reveal_strlit("\\_");
    reveal_strlit("\\{");
    reveal_strlit("\\}");
    reveal_strlit("\\textasciitilde{}");
    reveal_strlit("\\textasciicircum{}");
}

/// `t` holds no `~`, `^` or invisible formatting character at `j`, and a
/// `&`, `%`, `$`, `#` or `_` there directly follows a backslash.
pub open spec fn safe_at(t: Seq<char>, j: int) -> bool {
    let c = t[j];
    &&& c != '~' && c != '^' && c != '\u{200B}' && c != '\u{FEFF}' && c != '\u{2061}'
    &&& (c == '&' || c == '%' || c == '$' || c == '#' || c == '_') ==> j > 0 && t[j - 1] == '\\'
}

/// Every character of `t` is safe in LaTeX body text in the sense of
/// `safe_at`.
pub open spec fn latex_safe(t: Seq<char>) -> bool {
    forall|j: int| 0 <= j < t.len() ==> #[trigger] safe_at(t, j)
}

proof fn lemma_escaped_char_safe(c: char)
    ensures
        latex_safe(escaped_char(c)),
{
    match c {
        '\\' => reveal_strlit("\\textbackslash{}"),
        '&' => reveal_strlit("\\&"),
        '%' => reveal_strlit("\\%"),
        '$' => reveal_strlit("\\$"),
        '#' => reveal_strlit("\\#"),
        '_' => reveal_strlit("\\_"),
        '{' => reveal_strlit("\\{"),
        '}' => reveal_strlit("\\}"),
        '~' => reveal_strlit("\\textasciitilde{}"),
        '^' => reveal_strlit("\\textasciicircum{}"),
        '\u{2019}' => reveal_strlit("'"),
        '\u{2018}' => reveal_strlit("`"),
        '\u{201C}' => reveal_strlit("``"),
        '\u{201D}' => reveal_strlit("''"),
        '\u{2014}' => reveal_strlit("---"),
        '\u{2013}' => reveal_strlit("--"),
        '\u{2713}' | '\u{2714}' => reveal_strlit("\\checkmark"),
        '\u{2717}' | '\u{2718}' | '\u{2715}' => reveal_strlit("\\ensuremath{\\times}"),
        '\u{2022}' => reveal_strlit("\\textbullet{}"),
        '\u{25AA}' | '\u{25B8}' | '\u{25BA}' => reveal_strlit("\\ensuremath{\\blacksquare}"),
        '\u{2192}' => reveal_strlit("\\ensuremath{\\rightarrow}"),
        '\u{2190}' => reveal_strlit("\\ensuremath{\\leftarrow}"),
        '\u{2194}' => reveal_strlit("\\ensuremath{\\leftrightarrow}"),
        '\u{21D2}' => reveal_strlit("\\ensuremath{\\Rightarrow}"),
        '\u{21D4}' => reveal_strlit("\\ensuremath{\\Leftrightarrow}"),
        '\u{2264}' => reveal_strlit("\\ensuremath{\\leq}"),
        '\u{2265}' => reveal_strlit("\\ensuremath{\\geq}"),
        '\u{2260}' => reveal_strlit("\\ensuremath{\\neq}"),
        '\u{2248}' => reveal_strlit("\\ensuremath{\\approx}"),
        '\u{221D}' => reveal_strlit("\\ensuremath{\\propto}"),
        '\u{B1}' => reveal_strlit("\\ensuremath{\\pm}"),
        '\u{2213}' => reveal_strlit("\\ensuremath{\\mp}"),
        '\u{2212}' => reveal_strlit("\\ensuremath{-}"),
        '\u{D7}' => reveal_strlit("\\ensuremath{\\times}"),
        '\u{F7}' => reveal_strlit("\\ensuremath{\\div}"),
        '\u{221E}' => reveal_strlit("\\ensuremath{\\infty}"),
        '\u{2208}' => reveal_strlit("\\ensuremath{\\in}"),
        '\u{2209}' => reveal_strlit("\\ensuremath{\\notin}"),
        '\u{2282}' => reveal_strlit("\\ensuremath{\\subset}"),
        '\u{2286}' => reveal_strlit("\\ensuremath{\\subseteq}"),
        '\u{222A}' => reveal_strlit("\\ensuremath{\\cup}"),
        '\u{2229}' => reveal_strlit("\\ensuremath{\\cap}"),
        '\u{2211}' => reveal_strlit("\\ensuremath{\\sum}"),
        '\u{220F}' => reveal_strlit("\\ensuremath{\\prod}"),
        '\u{222B}' => reveal_strlit("\\ensuremath{\\int}"),
        '\u{221A}' => reveal_strlit("\\ensuremath{\\sqrt{}}"),
        '\u{2202}' => reveal_strlit("\\ensuremath{\\partial}"),
        '\u{2207}' => reveal_strlit("\\ensuremath{\\nabla}"),
        '\u{2206}' => reveal_strlit("\\ensuremath{\\Delta}"),
        '\u{2234}' => reveal_strlit("\\ensuremath{\\therefore}"),
        '\u{2235}' => reveal_strlit("\\ensuremath{\\because}"),
        '\u{2225}' => reveal_strlit("\\ensuremath{\\parallel}"),
        '\u{22A5}' => reveal_strlit("\\ensuremath{\\perp}"),
        '\u{2220}' => reveal_strlit("\\ensuremath{\\angle}"),
        '\u{2200}' => reveal_strlit("\\ensuremath{\\forall}"),
        '\u{2203}' => reveal_strlit("\\ensuremath{\\exists}"),
        '\u{AC}' => reveal_strlit("\\ensuremath{\\neg}"),
        '\u{2227}' => reveal_strlit("\\ensuremath{\\wedge}"),
        '\u{2228}' => reveal_strlit("\\ensuremath{\\vee}"),
        '\u{3B1}' => reveal_strlit("\\ensuremath{\\alpha}"),
        '\u{3B2}' => reveal_strlit("\\ensuremath{\\beta}"),
        '\u{3B3}' => reveal_strlit("\\ensuremath{\\gamma}"),
        '\u{3B4}' => reveal_strlit("\\ensuremath{\\delta}"),
        '\u{3B5}' => reveal_strlit("\\ensuremath{\\varepsilon}"),
        '\u{3B6}' => reveal_strlit("\\ensuremath{\\zeta}"),
        '\u{3B7}' => reveal_strlit("\\ensuremath{\\eta}"),
        '\u{3B8}' => reveal_strlit("\\ensuremath{\\theta}"),
        '\u{3B9}' => reveal_strlit("\\ensuremath{\\iota}"),
        '\u{3BA}' => reveal_strlit("\\ensuremath{\\kappa}"),
        '\u{3BB}' => reveal_strlit("\\ensuremath{\\lambda}"),
        '\u{3BC}' => reveal_strlit("\\ensuremath{\\mu}"),
        '\u{3BD}' => reveal_strlit("\\ensuremath{\\nu}"),
        '\u{3BE}' => reveal_strlit("\\ensuremath{\\xi}"),
        '\u{3C0}' => reveal_strlit("\\ensuremath{\\pi}"),
        '\u{3C1}' => reveal_strlit("\\ensuremath{\\rho}"),
        '\u{3C3}' => reveal_strlit("\\ensuremath{\\sigma}"),
        '\u{3C4}' => reveal_strlit("\\ensuremath{\\tau}"),
        '\u{3C5}' => reveal_strlit("\\ensuremath{\\upsilon}"),
        '\u{3C6}' => reveal_strlit("\\ensuremath{\\varphi}"),
        '\u{3C7}' => reveal_strlit("\\ensuremath{\\chi}"),
        '\u{3C8}' => reveal_strlit("\\ensuremath{\\psi}"),
        '\u{3C9}' => reveal_strlit("\\ensuremath{\\omega}"),
        '\u{393}' => reveal_strlit("\\ensuremath{\\Gamma}"),
        '\u{394}' => reveal_strlit("\\ensuremath{\\Delta}"),
        '\u{398}' => reveal_strlit("\\ensuremath{\\Theta}"),
        '\u{39B}' => reveal_strlit("\\ensuremath{\\Lambda}"),
        '\u{39E}' => reveal_strlit("\\ensuremath{\\Xi}"),
        '\u{3A0}' => reveal_strlit("\\ensuremath{\\Pi}"),
        '\u{3A3}' => reveal_strlit("\\ensuremath{\\Sigma}"),
        '\u{3A5}' => reveal_strlit("\\ensuremath{\\Upsilon}"),
        '\u{3A6}' => reveal_strlit("\\ensuremath{\\Phi}"),
        '\u{3A7}' => reveal_strlit("\\ensuremath{\\Chi}"),
        '\u{3A8}' => reveal_strlit("\\ensuremath{\\Psi}"),
        '\u{3A9}' => reveal_strlit("\\ensuremath{\\Omega}"),
        '\u{2061}' => {},
        '\u{200B}' => {},
        '\u{FEFF}' => {},
        '\u{B0}' => reveal_strlit("\\textdegree{}"),
        '\u{A9}' => reveal_strlit("\\textcopyright{}"),
        '\u{AE}' => reveal_strlit("\\textregistered{}"),
        '\u{2122}' => reveal_strlit("\\texttrademark{}"),
        '\u{2026}' => reveal_strlit("\\ldots{}"),
        '\u{20AC}' => reveal_strlit("\\texteuro{}"),
        '\u{A3}' => reveal_strlit("\\pounds{}"),
        '\u{A7}' => reveal_strlit("\\S{}"),
        '\u{B6}' => reveal_strlit("\\P{}"),
        '\u{F8F1}' | '\u{F8F2}' | '\u{F8F3}' => {},
        _ => {},
    }
}

/// Escaped text never holds a raw `~` or `^`, nor the invisible characters
/// U+200B, U+FEFF and U+2061, and each `&`, `%`, `$`, `#` and `_` in it
/// directly follows a backslash: LaTeX special characters never reach the
/// output unescaped.
pub proof fn lemma_escape_latex_safe(s: Seq<char>)
    ensures
        latex_safe(escaped(s)),
    decreases s.len(),
{
    if s.len() > 0 {
        lemma_escape_latex_safe(s.drop_last());
        lemma_escaped_char_safe(s.last());
        let p = escaped(s.drop_last());
        let q = escaped_char(s.last());
        let t = escaped(s);
        assert(t == p + q);
        assert forall|j: int| 0 <= j < t.len() implies #[trigger] safe_at(t, j) by {
            if j < p.len() {
                assert(safe_at(p, j));
                assert(t[j] == p[j]);
                if j > 0 {
                    assert(t[j - 1] == p[j - 1]);
                }
            } else {
                assert(safe_at(q, j - p.len()));
                assert(t[j] == q[j - p.len()]);
                if j - p.len() > 0 {
                    assert(t[j - 1] == q[j - 1 - p.len()]);
                }
            }
        }
    }
}

/// The characters `escape` drops: invisible formatting characters (function
/// application, zero-width space, byte-order mark) and the private-use
/// bracket pieces Word inserts.
pub open spec fn is_dropped(c: char) -> bool {
    c == '\u{2061}' || c == '\u{200B}' || c == '\u{FEFF}' || c == '\u{F8F1}' || c == '\u{F8F2}' || c == '\u{F8F3}'
}

/// How many characters of `s` are not dropped.
pub open spec fn kept_count(s: Seq<char>) -> nat
    decreases s.len(),
{
    if s.len() == 0 {
        0
    } else {
        kept_count(s.drop_last()) + if is_dropped(s.last()) { 0nat } else { 1nat }
    }
}

proof fn lemma_escaped_char_kept(c: char)
    ensures
        (escaped_char(c).len() == 0) == is_dropped(c),
{
    match c {
        '\\' => reveal_strlit("\\textbackslash{}"),
        '&' => reveal_strlit("\\&"),
        '%' => reveal_strlit("\\%"),
        '$' => reveal_strlit("\\$"),
        '#' => reveal_strlit("\\#"),
        '_' => reveal_strlit("\\_"),
        '{' => reveal_strlit("\\{"),
        '}' => reveal_strlit("\\}"),
        '~' => reveal_strlit("\\textasciitilde{}"),
        '^' => reveal_strlit("\\textasciicircum{}"),
        '\u{2019}' => reveal_strlit("'"),
        '\u{2018}' => reveal_strlit("`"),
        '\u{201C}' => reveal_strlit("``"),
        '\u{201D}' => reveal_strlit("''"),
        '\u{2014}' => reveal_strlit("---"),
        '\u{2013}' => reveal_strlit("--"),
        '\u{2713}' | '\u{2714}' => reveal_strlit("\\checkmark"),
        '\u{2717}' | '\u{2718}' | '\u{2715}' => reveal_strlit("\\ensuremath{\\times}"),
        '\u{2022}' => reveal_strlit("\\textbullet{}"),
        '\u{25AA}' | '\u{25B8}' | '\u{25BA}' => reveal_strlit("\\ensuremath{\\blacksquare}"),
        '\u{2192}' => reveal_strlit("\\ensuremath{\\rightarrow}"),
        '\u{2190}' => reveal_strlit("\\ensuremath{\\leftarrow}"),
        '\u{2194}' => reveal_strlit("\\ensuremath{\\leftrightarrow}"),
        '\u{21D2}' => reveal_strlit("\\ensuremath{\\Rightarrow}"),
        '\u{21D4}' => reveal_strlit("\\ensuremath{\\Leftrightarrow}"),
        '\u{2264}' => reveal_strlit("\\ensuremath{\\leq}"),
        '\u{2265}' => reveal_strlit("\\ensuremath{\\geq}"),
        '\u{2260}' => reveal_strlit("\\ensuremath{\\neq}"),
        '\u{2248}' => reveal_strlit("\\ensuremath{\\approx}"),
        '\u{221D}' => reveal_strlit("\\ensuremath{\\propto}"),
        '\u{B1}' => reveal_strlit("\\ensuremath{\\pm}"),
        '\u{2213}' => reveal_strlit("\\ensuremath{\\mp}"),
        '\u{2212}' => reveal_strlit("\\ensuremath{-}"),
        '\u{D7}' => reveal_strlit("\\ensuremath{\\times}"),
        '\u{F7}' => reveal_strlit("\\ensuremath{\\div}"),
        '\u{221E}' => reveal_strlit("\\ensuremath{\\infty}"),
        '\u{2208}' => reveal_strlit("\\ensuremath{\\in}"),
        '\u{2209}' => reveal_strlit("\\ensuremath{\\notin}"),
        '\u{2282}' => reveal_strlit("\\ensuremath{\\subset}"),
        '\u{2286}' => reveal_strlit("\\ensuremath{\\subseteq}"),
        '\u{222A}' => reveal_strlit("\\ensuremath{\\cup}"),
        '\u{2229}' => reveal_strlit("\\ensuremath{\\cap}"),
        '\u{2211}' => reveal_strlit("\\ensuremath{\\sum}"),
        '\u{220F}' => reveal_strlit("\\ensuremath{\\prod}"),
        '\u{222B}' => reveal_strlit("\\ensuremath{\\int}"),
        '\u{221A}' => reveal_strlit("\\ensuremath{\\sqrt{}}"),
        '\u{2202}' => reveal_strlit("\\ensuremath{\\partial}"),
        '\u{2207}' => reveal_strlit("\\ensuremath{\\nabla}"),
        '\u{2206}' => reveal_strlit("\\ensuremath{\\Delta}"),
        '\u{2234}' => reveal_strlit("\\ensuremath{\\therefore}"),
        '\u{2235}' => reveal_strlit("\\ensuremath{\\because}"),
        '\u{2225}' => reveal_strlit("\\ensuremath{\\parallel}"),
        '\u{22A5}' => reveal_strlit("\\ensuremath{\\perp}"),
        '\u{2220}' => reveal_strlit("\\ensuremath{\\angle}"),
        '\u{2200}' => reveal_strlit("\\ensuremath{\\forall}"),
        '\u{2203}' => reveal_strlit("\\ensuremath{\\exists}"),
        '\u{AC}' => reveal_strlit("\\ensuremath{\\neg}"),
        '\u{2227}' => reveal_strlit("\\ensuremath{\\wedge}"),
        '\u{2228}' => reveal_strlit("\\ensuremath{\\vee}"),
        '\u{3B1}' => reveal_strlit("\\ensuremath{\\alpha}"),
        '\u{3B2}' => reveal_strlit("\\ensuremath{\\beta}"),
        '\u{3B3}' => reveal_strlit("\\ensuremath{\\gamma}"),
        '\u{3B4}' => reveal_strlit("\\ensuremath{\\delta}"),
        '\u{3B5}' => reveal_strlit("\\ensuremath{\\varepsilon}"),
        '\u{3B6}' => reveal_strlit("\\ensuremath{\\zeta}"),
        '\u{3B7}' => reveal_strlit("\\ensuremath{\\eta}"),
        '\u{3B8}' => reveal_strlit("\\ensuremath{\\theta}"),
        '\u{3B9}' => reveal_strlit("\\ensuremath{\\iota}"),
        '\u{3BA}' => reveal_strlit("\\ensuremath{\\kappa}"),
        '\u{3BB}' => reveal_strlit("\\ensuremath{\\lambda}"),
        '\u{3BC}' => reveal_strlit("\\ensuremath{\\mu}"),
        '\u{3BD}' => reveal_strlit("\\ensuremath{\\nu}"),
        '\u{3BE}' => reveal_strlit("\\ensuremath{\\xi}"),
        '\u{3C0}' => reveal_strlit("\\ensuremath{\\pi}"),
        '\u{3C1}' => reveal_strlit("\\ensuremath{\\rho}"),
        '\u{3C3}' => reveal_strlit("\\ensuremath{\\sigma}"),
        '\u{3C4}' => reveal_strlit("\\ensuremath{\\tau}"),
        '\u{3C5}' => reveal_strlit("\\ensuremath{\\upsilon}"),
        '\u{3C6}' => reveal_strlit("\\ensuremath{\\varphi}"),
        '\u{3C7}' => reveal_strlit("\\ensuremath{\\chi}"),
        '\u{3C8}' => reveal_strlit("\\ensuremath{\\psi}"),
        '\u{3C9}' => reveal_strlit("\\ensuremath{\\omega}"),
        '\u{393}' => reveal_strlit("\\ensuremath{\\Gamma}"),
        '\u{394}' => reveal_strlit("\\ensuremath{\\Delta}"),
        '\u{398}' => reveal_strlit("\\ensuremath{\\Theta}"),
        '\u{39B}' => reveal_strlit("\\ensuremath{\\Lambda}"),
        '\u{39E}' => reveal_strlit("\\ensuremath{\\Xi}"),
        '\u{3A0}' => reveal_strlit("\\ensuremath{\\Pi}"),
        '\u{3A3}' => reveal_strlit("\\ensuremath{\\Sigma}"),
        '\u{3A5}' => reveal_strlit("\\ensuremath{\\Upsilon}"),
        '\u{3A6}' => reveal_strlit("\\ensuremath{\\Phi}"),
        '\u{3A7}' => reveal_strlit("\\ensuremath{\\Chi}"),
        '\u{3A8}' => reveal_strlit("\\ensuremath{\\Psi}"),
        '\u{3A9}' => reveal_strlit("\\ensuremath{\\Omega}"),
        '\u{2061}' => {},
        '\u{200B}' => {},
        '\u{FEFF}' => {},
        '\u{B0}' => reveal_strlit("\\textdegree{}"),
        '\u{A9}' => reveal_strlit("\\textcopyright{}"),
        '\u{AE}' => reveal_strlit("\\textregistered{}"),
        '\u{2122}' => reveal_strlit("\\texttrademark{}"),
        '\u{2026}' => reveal_strlit("\\ldots{}"),
        '\u{20AC}' => reveal_strlit("\\texteuro{}"),
        '\u{A3}' => reveal_strlit("\\pounds{}"),
        '\u{A7}' => reveal_strlit("\\S{}"),
        '\u{B6}' => reveal_strlit("\\P{}"),
        '\u{F8F1}' | '\u{F8F2}' | '\u{F8F3}' => {},
        _ => {},
    }
}

/// Escaping loses no visible character: exactly the dropped invisible
/// characters give no output, every other character gives some, so the
/// escaped text is at least as long as the number of characters kept.
pub proof fn lemma_escape_keeps_visible(s: Seq<char>)
    ensures
        forall|i: int| 0 <= i < s.len() ==> ((escaped(seq![#[trigger] s[i]]).len() == 0) == is_dropped(s[i])),
        escaped(s).len() >= kept_count(s),
        escaped(s).len() == 0 <==> (forall|i: int| 0 <= i < s.len() ==> is_dropped(#[trigger] s[i])),
    decreases s.len(),
{
    assert forall|i: int| 0 <= i < s.len() implies ((escaped(seq![#[trigger] s[i]]).len() == 0) == is_dropped(s[i])) by {
        let one = seq![s[i]];
        assert(one.drop_last() =~= Seq::<char>::empty());
        assert(one.last() == s[i]);
        assert(escaped(one.drop_last()) =~= Seq::<char>::empty());
        assert(escaped(one) =~= escaped(one.drop_last()) + escaped_char(s[i]));
        assert(escaped(one) =~= escaped_char(s[i]));
        lemma_escaped_char_kept(s[i]);
    }
    if s.len() > 0 {
        let t = s.drop_last();
        lemma_escape_keeps_visible(t);
        lemma_escaped_char_kept(s.last());
        assert(s =~= t.push(s.last()));
        if escaped(s).len() == 0 {
            assert forall|i: int| 0 <= i < s.len() implies is_dropped(#[trigger] s[i]) by {
                if i < t.len() {
                    assert(s[i] == t[i]);
                }
            }
        }
        if forall|i: int| 0 <= i < s.len() ==> is_dropped(#[trigger] s[i]) {
            assert forall|i: int| 0 <= i < t.len() implies is_dropped(#[trigger] t[i]) by {
                assert(s[i] == t[i]);
            }
            assert(is_dropped(s[s.len() - 1]));
        }
    }
}

/// Word's typographic quotes and dashes come out as their TeX spellings:
/// a right single quote as an apostrophe, a left one as a backtick, double
/// quotes as two of them, an em dash as `---` and an en dash as `--`.
pub proof fn lemma_typographic_punctuation()
    ensures
        escaped_char('\u{2019}') == seq!['\''],
        escaped_char('\u{2018}') == seq!['`'],
        escaped_char('\u{201C}') == seq!['`', '`'],
        escaped_char('\u{201D}') == seq!['\'', '\''],
        escaped_char('\u{2014}') == seq!['-', '-', '-'],
        escaped_char('\u{2013}') == seq!['-', '-'],
{
    reveal_strlit("'");
    reveal_strlit("`");
    reveal_strlit("``");
    reveal_strlit("''");
    reveal_strlit("---");
    reveal_strlit("--");
    assert("'"@ =~= seq!['\'']);
    assert("`"@ =~= seq!['`']);
    assert("``"@ =~= seq!['`', '`']);
    assert("''"@ =~= seq!['\'', '\'']);
    assert("---"@ =~= seq!['-', '-', '-']);
    assert("--"@ =~= seq!['-', '-']);
}

/// ASCII letters, digits and spaces pass through escaping unchanged.
pub proof fn lemma_plain_ascii_kept(c: char)
    requires
        ('a' <= c && c <= 'z') || ('A' <= c && c <= 'Z') || ('0' <= c && c <= '9') || c == ' ',
    ensures
        escaped_char(c) == seq![c],
{
}

/// Each of `& % $ # _ { }` is escaped as a backslash followed by itself;
/// a backslash, tilde and caret become the text-mode commands that print
/// them.
pub proof fn lemma_specials_spelled(c: char)
    ensures
        (c == '&' || c == '%' || c == '$' || c == '#' || c == '_' || c == '{' || c == '}') ==> escaped_char(c)
            == seq!['\\', c],
        c == '\\' ==> escaped_char(c) == "\\textbackslash{}"@,
        c == '~' ==> escaped_char(c) == "\\textasciitilde{}"@,
        c == '^' ==> escaped_char(c) == "\\textasciicircum{}"@,
{
    reveal_strlit("\\&");
    reveal_strlit("\\%");
    reveal_strlit("\\$");
    reveal_strlit("\\#");
    reveal_strlit("\\_");
    reveal_strlit("\\{");
    reveal_strlit("\\}");
    assert("\\&"@ =~= seq!['\\', '&']);
    assert("\\%"@ =~= seq!['\\', '%']);
    assert("\\$"@ =~= seq!['\\', '$']);
    assert("\\#"@ =~= seq!['\\', '#']);
    assert("\\_"@ =~= seq!['\\', '_']);
    assert("\\{"@ =~= seq!['\\', '{']);
    assert("\\}"@ =~= seq!['\\', '}']);
}

/// In a URL only `%` and `#` are escaped, each as a backslash followed by
/// itself; every other character is kept.
pub proof fn lemma_url_escapes(c: char)
    ensures
        (c == '%' || c == '#') ==> url_escaped_char(c) == seq!['\\', c],
        c != '%' && c != '#' ==> url_escaped_char(c) == seq![c],
{
}

} // verus!
