//! Convert a document into a complete, compilable LaTeX string.
//!
//! Three template presets are supported:
//!   - `Default`  → `article` class, sensible defaults for general use
//!   - `Ieee`     → `IEEEtran` class, two-column IEEE conference format
//!   - `Thesis`   → `report` class, single-sided thesis format with chapter support
//!
//! Every function states the exact text it appends; the specification
//! functions below spell that text out over the document's view.
use vstd::prelude::*;
use crate::cli::Template;
use crate::escaper::{escape, escape_url, escaped, url_escaped};
use crate::model::{Cell, Element, ElementV, Run, RunV, runs_text, concat_runs, lemma_take_next_deep_view};
use crate::text::{
    CharClass, trim, lead_count, drop_trail, starts_with, ascii_lower, first_word, is_dotted_number,
    unicode_uppercase, unicode_lowercase, chars_of, trim_chars, ascii_lowercase, starts_with_str, lead_len,
    first_word_chars, drop_trailing, dotted_groups, uppercase_chars, equal_chars, push_fixed2, fixed2,
    lemma_lead_count_bound, unicode_lower, unicode_upper, find_from, find_first, occurs_at, contains,
    contains_str, slice_of, word_count, count_words, lowercase_chars, utf8_len, ends_with,
};

verus! {

broadcast use vstd::string::group_string_axioms;

// ── Run rendering ─────────────────────────────────────────────────────────────

pub open spec fn wrap(cmd: Seq<char>, s: Seq<char>) -> Seq<char> {
    cmd + s + "}"@
}

/// The LaTeX of one run: escaped text wrapped, innermost first, in
/// `\texttt`, `\textbf` (unless stripped), `\textit` (unless stripped),
/// `\uline`, `\textsuperscript`, `\textsubscript` and `\href`.
pub open spec fn fmt_run(r: RunV, strip_bold: bool, strip_italic: bool) -> Seq<char> {
    let s0 = if r.mono { wrap("\\texttt{"@, escaped(r.text)) } else { escaped(r.text) };
    let s1 = if r.bold && !strip_bold { wrap("\\textbf{"@, s0) } else { s0 };
    let s2 = if r.italic && !strip_italic { wrap("\\textit{"@, s1) } else { s1 };
    let s3 = if r.underline { wrap("\\uline{"@, s2) } else { s2 };
    let s4 = if r.superscript { wrap("\\textsuperscript{"@, s3) } else { s3 };
    let s5 = if r.subscript { wrap("\\textsubscript{"@, s4) } else { s4 };
    match r.hyperlink {
        Some(u) => "\\href{"@ + url_escaped(u) + "}{"@ + s5 + "}"@,
        None => s5,
    }
}

pub open spec fn fmt_runs(rs: Seq<RunV>, strip_bold: bool, strip_italic: bool) -> Seq<char>
    decreases rs.len(),
{
    if rs.len() == 0 {
        Seq::empty()
    } else {
        fmt_runs(rs.drop_last(), strip_bold, strip_italic) + fmt_run(rs.last(), strip_bold, strip_italic)
    }
}

fn wrap_exec(cmd: &str, s: String) -> (r: String)
    ensures
        r@ == wrap(cmd@, s@),
{
    let mut r = String::new();
    r.append(cmd);
    r.append(s.as_str());
    r.append("}");
    r
}

fn fmt_run_exec(run: &Run, strip_bold: bool, strip_italic: bool) -> (s: String)
    ensures
        s@ == fmt_run(run.deep_view(), strip_bold, strip_italic),
{
    let text = escape(run.text.as_str());
    let mut s = if run.mono { wrap_exec("\\texttt{", text) } else { text };
    if run.bold && !strip_bold {
        s = wrap_exec("\\textbf{", s);
    }
    if run.italic && !strip_italic {
        s = wrap_exec("\\textit{", s);
    }
    if run.underline {
        s = wrap_exec("\\uline{", s);
    }
    if run.superscript {
        s = wrap_exec("\\textsuperscript{", s);
    }
    if run.subscript {
        s = wrap_exec("\\textsubscript{", s);
    }
    match &run.hyperlink {
        Some(url) => {
            let escaped_url = escape_url(url.as_str());
            let mut h = String::new();
            h.append("\\href{");
            h.append(escaped_url.as_str());
            h.append("}{");
            h.append(s.as_str());
            h.append("}");
            h
        },
        None => s,
    }
}

/// Like `emit_runs` but suppresses bold/italic wrappers when the call site is
/// already inside a `\textbf{}` or `\textit{}`.
pub fn emit_runs_stripped(out: &mut String, runs: &Vec<Run>, strip_bold: bool, strip_italic: bool)
    ensures
        final(out)@ == old(out)@ + fmt_runs(runs.deep_view(), strip_bold, strip_italic),
{
    let ghost start = out@;
    let mut i: usize = 0;
    while i < runs.len()
        invariant
            i <= runs.len(),
            out@ == start + fmt_runs(runs.deep_view().take(i as int), strip_bold, strip_italic),
        decreases runs.len() - i,
    {
        let s = fmt_run_exec(&runs[i], strip_bold, strip_italic);
        out.append(s.as_str());
        proof {
            lemma_take_next_deep_view(*runs, i as int);
            assert(runs.deep_view().take(i as int + 1).drop_last() =~= runs.deep_view().take(i as int));
            assert(out@ =~= start + fmt_runs(runs.deep_view().take(i as int + 1), strip_bold, strip_italic));
        }
        i += 1;
    }
    assert(runs.deep_view().take(i as int) =~= runs.deep_view());
}

/// Appends the LaTeX of the runs.
pub fn emit_runs(out: &mut String, runs: &Vec<Run>)
    ensures
        final(out)@ == old(out)@ + fmt_runs(runs.deep_view(), false, false),
{
    emit_runs_stripped(out, runs, false, false);
}

// ── Front-matter keyword detection ───────────────────────────────────────────

/// The academic front/back-matter section titles typeset as `\chapter*{}`.
pub open spec fn is_front_matter_keyword(u: Seq<char>) -> bool {
    ||| u == "ABSTRACT"@
    ||| u == "DECLARATION"@
    ||| u == "DECLARATION OF AUTHORSHIP"@
    ||| u == "DECLARATION OF ORIGINALITY"@
    ||| u == "APPROVAL"@
    ||| u == "APPROVAL PAGE"@
    ||| u == "CERTIFICATION"@
    ||| u == "DEDICATION"@
    ||| u == "ACKNOWLEDGEMENTS"@
    ||| u == "ACKNOWLEDGMENTS"@
    ||| u == "ACKNOWLEDGEMENT"@
    ||| u == "PREFACE"@
    ||| u == "FOREWORD"@
    ||| u == "TABLE OF CONTENTS"@
    ||| u == "CONTENTS"@
    ||| u == "NOMENCLATURE"@
    ||| u == "ACRONYMS"@
    ||| u == "LIST OF ACRONYMS"@
    ||| u == "ABBREVIATIONS"@
    ||| u == "LIST OF ABBREVIATIONS"@
    ||| u == "LIST OF FIGURES"@
    ||| u == "LIST OF TABLES"@
    ||| u == "LIST OF SYMBOLS"@
    ||| u == "LIST OF PLATES"@
    ||| u == "URL LINKS"@
    ||| u == "REFERENCES"@
    ||| u == "BIBLIOGRAPHY"@
    ||| u == "APPENDIX"@
    ||| u == "APPENDICES"@
}

/// The trimmed text, upper-cased, is one of the front-matter keywords.
pub open spec fn is_front_matter(text: Seq<char>) -> bool {
    is_front_matter_keyword(unicode_uppercase(trim(text)))
}

fn is_keyword(u: &Vec<char>, kw: &str) -> (b: bool)
    ensures
        b == (u@ == kw@),
{
    let k = chars_of(kw);
    equal_chars(u, &k)
}

/// Returns true if `text` (trimmed, case-insensitively) is a well-known
/// academic front/back-matter section title.
pub fn is_front_matter_heading(text: &Vec<char>) -> (b: bool)
    ensures
        b == is_front_matter(text@),
{
    let t = trim_chars(text);
    let u = uppercase_chars(&t);
    is_keyword(&u, "ABSTRACT") || is_keyword(&u, "DECLARATION")
        || is_keyword(&u, "DECLARATION OF AUTHORSHIP") || is_keyword(&u, "DECLARATION OF ORIGINALITY")
        || is_keyword(&u, "APPROVAL") || is_keyword(&u, "APPROVAL PAGE")
        || is_keyword(&u, "CERTIFICATION") || is_keyword(&u, "DEDICATION")
        || is_keyword(&u, "ACKNOWLEDGEMENTS") || is_keyword(&u, "ACKNOWLEDGMENTS")
        || is_keyword(&u, "ACKNOWLEDGEMENT") || is_keyword(&u, "PREFACE")
        || is_keyword(&u, "FOREWORD") || is_keyword(&u, "TABLE OF CONTENTS")
        || is_keyword(&u, "CONTENTS") || is_keyword(&u, "NOMENCLATURE")
        || is_keyword(&u, "ACRONYMS") || is_keyword(&u, "LIST OF ACRONYMS")
        || is_keyword(&u, "ABBREVIATIONS") || is_keyword(&u, "LIST OF ABBREVIATIONS")
        || is_keyword(&u, "LIST OF FIGURES") || is_keyword(&u, "LIST OF TABLES")
        || is_keyword(&u, "LIST OF SYMBOLS") || is_keyword(&u, "LIST OF PLATES")
        || is_keyword(&u, "URL LINKS") || is_keyword(&u, "REFERENCES")
        || is_keyword(&u, "BIBLIOGRAPHY") || is_keyword(&u, "APPENDIX")
        || is_keyword(&u, "APPENDICES")
}

// ── Heading number prefix stripping ──────────────────────────────────────────

/// Where the heading text that `strip_heading_number_prefix` returns starts
/// inside `text`: past leading white space and, when present, a
/// "CHAPTER N:" label or a dotted number such as "1.2" (unless nothing would
/// be left after it).
pub open spec fn heading_prefix_len(text: Seq<char>) -> nat {
    let l0 = lead_count(text, CharClass::Whitespace);
    let t = trim(text);
    if starts_with(ascii_lower(t), "chapter"@) {
        let a = t.skip("chapter"@.len() as int);
        let l1 = lead_count(a, CharClass::Whitespace);
        let b = a.skip(l1 as int);
        let l2 = lead_count(b, CharClass::Digit);
        let c = b.skip(l2 as int);
        let l3 = lead_count(c, CharClass::Separator);
        if c.skip(l3 as int).len() > 0 {
            l0 + "chapter"@.len() + l1 + l2 + l3
        } else {
            l0
        }
    } else {
        let fw = first_word(t);
        if is_dotted_number(drop_trail(fw, CharClass::Exactly('.'))) {
            let rest = t.skip(fw.len() as int);
            let l1 = lead_count(rest, CharClass::Whitespace);
            if rest.skip(l1 as int).len() > 0 {
                l0 + fw.len() + l1
            } else {
                l0
            }
        } else {
            l0
        }
    }
}

/// Where the trimmed `text` ends inside `text`.
pub open spec fn trimmed_end(text: Seq<char>) -> nat {
    lead_count(text, CharClass::Whitespace) + trim(text).len()
}

/// The heading text left once the leading numbering prefix is stripped:
/// the trimmed text from where `heading_prefix_len` points.
pub open spec fn stripped_heading(text: Seq<char>) -> Seq<char> {
    text.subrange(heading_prefix_len(text) as int, trimmed_end(text) as int)
}

/// Strips a leading numbering prefix that Word embeds in heading text: the
/// heading text left is `text[start..end]`, the trimmed text past a
/// "CHAPTER N:" label or a dotted number (the trimmed text itself when there
/// is none, or when nothing would be left).
#[verifier::spinoff_prover]
#[verifier::rlimit(50)]
pub fn strip_heading_number_prefix(text: &Vec<char>) -> (r: (usize, usize))
    ensures
        r.0 == heading_prefix_len(text@),
        r.1 == trimmed_end(text@),
        r.0 <= r.1 <= text@.len(),
        text@.subrange(r.0 as int, r.1 as int) == stripped_heading(text@),
{
    let l0 = lead_len(text, 0, &CharClass::Whitespace);
    assert(text@.skip(0) =~= text@);
    proof { lemma_lead_count_bound(text@, CharClass::Whitespace); }
    let t = trim_chars(text);
    proof {
        crate::text::lemma_trail_count_bound(text@.skip(l0 as int), CharClass::Whitespace);
    }
    assert(l0 + t@.len() <= text@.len());
    let end = l0 + t.len();
    let lower = ascii_lowercase(&t);
    if starts_with_str(&lower, "chapter") {
        let cw = chars_of("chapter");
        let a_start = cw.len();
        let l1 = lead_len(&t, a_start, &CharClass::Whitespace);
        let l2 = lead_len(&t, a_start + l1, &CharClass::Digit);
        let l3 = lead_len(&t, a_start + l1 + l2, &CharClass::Separator);
        proof {
            let a = t@.skip(a_start as int);
            assert(a.skip(l1 as int) =~= t@.skip(a_start + l1));
            assert(a.skip(l1 as int).skip(l2 as int) =~= t@.skip(a_start + l1 + l2));
            assert(a.skip(l1 as int).skip(l2 as int).skip(l3 as int) =~= t@.skip(a_start + l1 + l2 + l3));
        }
        if a_start + l1 + l2 + l3 < t.len() {
            return (l0 + a_start + l1 + l2 + l3, end);
        }
        return (l0, end);
    }
    let fw = first_word_chars(&t);
    let w = drop_trailing(&fw, &CharClass::Exactly('.'));
    if dotted_groups(&w).is_some() {
        proof {
            crate::text::lemma_lead_count_bound(t@, CharClass::Whitespace);
            crate::text::lemma_lead_count_bound(crate::text::trim_start(t@), CharClass::NonWhitespace);
        }
        assert(fw@.len() <= t@.len());
        let l1 = lead_len(&t, fw.len(), &CharClass::Whitespace);
        assert(t@.skip(fw@.len() as int).skip(l1 as int) =~= t@.skip(fw.len() + l1));
        if fw.len() + l1 < t.len() {
            return (l0 + fw.len() + l1, end);
        }
    }
    (l0, end)
}

/// The runs with their first `k` characters removed (emptied runs are kept).
pub open spec fn drop_chars(runs: Seq<RunV>, k: nat) -> Seq<RunV>
    decreases runs.len(),
{
    if runs.len() == 0 || k == 0 {
        runs
    } else if k >= runs[0].text.len() {
        seq![RunV { text: Seq::empty(), ..runs[0] }] + drop_chars(runs.drop_first(), (k - runs[0].text.len()) as nat)
    } else {
        seq![RunV { text: runs[0].text.skip(k as int), ..runs[0] }] + runs.drop_first()
    }
}

/// The runs whose text is not empty.
pub open spec fn nonempty_runs(runs: Seq<RunV>) -> Seq<RunV>
    decreases runs.len(),
{
    if runs.len() == 0 {
        Seq::empty()
    } else if runs.last().text.len() == 0 {
        nonempty_runs(runs.drop_last())
    } else {
        nonempty_runs(runs.drop_last()).push(runs.last())
    }
}

/// Heading runs with the heading-number prefix removed from their combined text.
pub open spec fn stripped_runs(runs: Seq<RunV>) -> Seq<RunV> {
    let k = heading_prefix_len(runs_text(runs));
    if k == 0 {
        runs
    } else {
        nonempty_runs(drop_chars(runs, k))
    }
}

fn empty_string() -> (s: String)
    ensures
        s@ == Seq::<char>::empty(),
{
    String::new()
}

/// Apply `strip_heading_number_prefix` to a run slice, removing the
/// appropriate number of characters from the leading runs.
pub fn strip_runs_prefix(runs: &Vec<Run>) -> (r: Vec<Run>)
    ensures
        r.deep_view() == stripped_runs(runs.deep_view()),
{
    let combined = concat_runs(runs);
    let (skip, _) = strip_heading_number_prefix(&combined);
    let mut result = crate::model::copy_runs(runs);
    if skip == 0 {
        return result;
    }
    let ghost orig = runs.deep_view();
    assert(orig.skip(0) =~= orig);
    assert(result.deep_view().take(0) + drop_chars(orig.skip(0), skip as nat) =~= drop_chars(orig, skip as nat));
    let mut remaining = skip;
    let mut j: usize = 0;
    while j < result.len()
        invariant
            j <= result.len() == orig.len(),
            result.deep_view().skip(j as int) == orig.skip(j as int),
            drop_chars(orig, skip as nat) == result.deep_view().take(j as int) + drop_chars(orig.skip(j as int), remaining as nat),
        ensures
            drop_chars(orig, skip as nat) == result.deep_view(),
        decreases result.len() - j,
    {
        if remaining == 0 {
            assert(result.deep_view() =~= result.deep_view().take(j as int) + result.deep_view().skip(j as int));
            break;
        }
        let ghost rest = orig.skip(j as int);
        assert(rest[0] == orig[j as int]);
        assert(rest.drop_first() =~= orig.skip(j as int + 1));
        let tc = chars_of(result[j].text.as_str());
        let run_len = tc.len();
        let mut run = result[j].copy();
        if remaining >= run_len {
            remaining -= run_len;
            run.text = empty_string();
        } else {
            run.text = crate::text::string_of(&tc, remaining, run_len);
            assert(tc@.subrange(remaining as int, run_len as int) =~= tc@.skip(remaining as int));
            remaining = 0;
        }
        let ghost before = result.deep_view();
        result.set(j, run);
        proof {
            assert(result.deep_view() =~= before.update(j as int, run.deep_view()));
            assert(result.deep_view().skip(j as int + 1) =~= orig.skip(j as int + 1));
            assert(result.deep_view().take(j as int + 1) =~= before.take(j as int).push(run.deep_view()));
        }
        j += 1;
    }
    let ghost dropped = result.deep_view();
    let mut out: Vec<Run> = Vec::new();
    let mut i: usize = 0;
    while i < result.len()
        invariant
            i <= result.len(),
            dropped == result.deep_view(),
            out.deep_view() == nonempty_runs(dropped.take(i as int)),
        decreases result.len() - i,
    {
        proof {
            lemma_take_next_deep_view(result, i as int);
            assert(dropped.take(i as int + 1).drop_last() =~= dropped.take(i as int));
        }
        let tc = chars_of(result[i].text.as_str());
        if tc.len() != 0 {
            let r = result[i].copy();
            let ghost before = out;
            out.push(r);
            proof { crate::model::lemma_push_deep_view(before, out, r); }
        }
        i += 1;
    }
    assert(dropped.take(i as int) =~= dropped);
    out
}

// ── Heading commands ─────────────────────────────────────────────────────────

pub open spec fn heading_command_of(level: u8, template: Template) -> Seq<char> {
    match template {
        Template::Thesis => if level == 1 {
            "chapter"@
        } else if level == 2 {
            "section"@
        } else if level == 3 {
            "subsection"@
        } else {
            "subsubsection"@
        },
        _ => if level == 1 {
            "section"@
        } else if level == 2 {
            "subsection"@
        } else if level == 3 {
            "subsubsection"@
        } else {
            "paragraph"@
        },
    }
}

/// The sectioning command for a heading level under a template.
pub fn heading_command(level: u8, template: &Template) -> (r: &'static str)
    ensures
        r@ == heading_command_of(level, *template),
{
    match template {
        Template::Thesis => match level {
            1 => "chapter",
            2 => "section",
            3 => "subsection",
            _ => "subsubsection",
        },
        _ => match level {
            1 => "section",
            2 => "subsection",
            3 => "subsubsection",
            _ => "paragraph",
        },
    }
}

// ── List rendering ────────────────────────────────────────────────────────────

/// `n` levels of two-space indentation.
pub open spec fn indent(n: int) -> Seq<char>
    decreases n,
{
    if n <= 0 {
        Seq::empty()
    } else {
        indent(n - 1) + "  "@
    }
}

pub open spec fn list_env(ordered: bool) -> Seq<char> {
    if ordered { "enumerate"@ } else { "itemize"@ }
}

/// The `\begin{env}` lines that open levels `depth + 1` up to `target`.
pub open spec fn opens(depth: int, target: int, env: Seq<char>) -> Seq<char>
    decreases target - depth,
{
    if depth >= target {
        Seq::empty()
    } else {
        indent(depth + 1) + "\\begin{"@ + env + "}\n"@ + opens(depth + 1, target, env)
    }
}

/// The `\end{env}` lines that close levels `depth` down to `target + 1`.
pub open spec fn closes(depth: int, target: int, env: Seq<char>) -> Seq<char>
    decreases depth - target,
{
    if depth <= target {
        Seq::empty()
    } else {
        indent(depth) + "\\end{"@ + env + "}\n"@ + closes(depth - 1, target, env)
    }
}

/// The list text from item `k` on, with `depth` environments open.
pub open spec fn list_from(items: Seq<(u8, Seq<RunV>)>, k: int, env: Seq<char>, depth: int) -> Seq<char>
    decreases items.len() - k,
{
    if k < 0 || k >= items.len() {
        closes(depth, -1, env)
    } else {
        let t = items[k].0 as int;
        opens(depth, t, env) + closes(depth, t, env) + indent(t + 1) + "\\item "@ + fmt_runs(items[k].1, false, false)
            + "\n"@ + list_from(items, k + 1, env, t)
    }
}

/// A list: nested `itemize`/`enumerate` environments following the item levels.
pub open spec fn list_text(ordered: bool, items: Seq<(u8, Seq<RunV>)>) -> Seq<char> {
    if items.len() == 0 {
        Seq::empty()
    } else {
        list_from(items, 0, list_env(ordered), -1)
    }
}

proof fn lemma_ends_with_concat(a: Seq<char>, b: Seq<char>, f: Seq<char>)
    requires
        ends_with(b, f),
    ensures
        ends_with(a + b, f),
{
    assert((a + b).skip((a + b).len() - f.len()) =~= b.skip(b.len() - f.len()));
}

proof fn lemma_closes_end(d: int, env: Seq<char>)
    requires
        d >= 0,
    ensures
        ends_with(closes(d, -1, env), "\\end{"@ + env + "}\n"@),
    decreases d,
{
    let f = "\\end{"@ + env + "}\n"@;
    if d == 0 {
        assert(closes(-1, -1, env) =~= Seq::<char>::empty());
        assert(closes(0, -1, env) =~= f);
        assert(f.skip(0) =~= f);
    } else {
        lemma_closes_end(d - 1, env);
        lemma_ends_with_concat(indent(d) + "\\end{"@ + env + "}\n"@, closes(d - 1, -1, env), f);
    }
}

proof fn lemma_list_from_end(items: Seq<(u8, Seq<RunV>)>, k: int, env: Seq<char>, depth: int)
    requires
        0 <= k <= items.len(),
        depth >= 0 || k < items.len(),
    ensures
        ends_with(list_from(items, k, env, depth), "\\end{"@ + env + "}\n"@),
    decreases items.len() - k,
{
    if k == items.len() {
        lemma_closes_end(depth, env);
    } else {
        let t = items[k].0 as int;
        lemma_list_from_end(items, k + 1, env, t);
        lemma_ends_with_concat(
            opens(depth, t, env) + closes(depth, t, env) + indent(t + 1) + "\\item "@ + fmt_runs(items[k].1, false, false)
                + "\n"@,
            list_from(items, k + 1, env, t),
            "\\end{"@ + env + "}\n"@,
        );
    }
}

/// A list is one environment: its text begins with `\begin{env}` and ends
/// with `\end{env}`, `env` being `enumerate` for a numbered list and
/// `itemize` otherwise.
pub proof fn lemma_list_enclosed(ordered: bool, items: Seq<(u8, Seq<RunV>)>)
    requires
        items.len() > 0,
    ensures
        starts_with(list_text(ordered, items), "\\begin{"@ + list_env(ordered) + "}\n"@),
        ends_with(list_text(ordered, items), "\\end{"@ + list_env(ordered) + "}\n"@),
{
    let env = list_env(ordered);
    let e = "\\begin{"@ + env + "}\n"@;
    let t = items[0].0 as int;
    assert(indent(0) =~= Seq::<char>::empty());
    assert(opens(-1, t, env) =~= e + opens(0, t, env));
    let rest = opens(0, t, env) + closes(-1, t, env) + indent(t + 1) + "\\item "@ + fmt_runs(items[0].1, false, false)
        + "\n"@ + list_from(items, 1, env, t);
    assert(list_text(ordered, items) =~= e + rest);
    assert((e + rest).take(e.len() as int) =~= e);
    lemma_list_from_end(items, 0, env, -1);
}

fn push_indent(out: &mut String, n: i64)
    ensures
        final(out)@ == old(out)@ + indent(n as int),
{
    let ghost start = out@;
    let mut i: i64 = 0;
    if n <= 0 {
        return;
    }
    while i < n
        invariant
            0 <= i <= n,
            out@ == start + indent(i as int),
        decreases n - i,
    {
        out.append("  ");
        i += 1;
        assert(out@ =~= start + indent(i as int));
    }
}

/// Render a list with nesting based on per-item indent levels: a deeper
/// level opens a nested environment, a shallower one closes back to it.
pub fn emit_nested_list(out: &mut String, ordered: bool, items: &Vec<(u8, Vec<Run>)>)
    ensures
        final(out)@ == old(out)@ + list_text(ordered, items.deep_view()),
{
    if items.len() == 0 {
        return;
    }
    let env = if ordered { "enumerate" } else { "itemize" };
    let ghost envs = list_env(ordered);
    let ghost iv = items.deep_view();
    let ghost start = out@;
    let mut depth: i64 = -1;
    let mut k: usize = 0;
    while k < items.len()
        invariant
            k <= items.len(),
            iv == items.deep_view(),
            env@ == envs,
            -1 <= depth <= 255,
            start + list_from(iv, 0, envs, -1) == out@ + list_from(iv, k as int, envs, depth as int),
        decreases items.len() - k,
    {
        let target = items[k].0 as i64;
        assert(iv[k as int].0 == items[k as int].0);
        let ghost base = out@;
        let ghost d0 = depth as int;
        while depth < target
            invariant
                -1 <= d0 <= depth,
                depth <= target || depth == d0,
                0 <= target <= 255,
                env@ == envs,
                out@ + opens(depth as int, target as int, envs) == base + opens(d0, target as int, envs),
            decreases target - depth,
        {
            let ghost b = out@;
            push_indent(out, depth + 1);
            out.append("\\begin{");
            out.append(env);
            out.append("}\n");
            assert(out@ =~= b + indent(depth + 1) + "\\begin{"@ + envs + "}\n"@);
            depth += 1;
        }
        assert(opens(d0, target as int, envs) =~= out@.skip(base.len() as int));
        let ghost base2 = out@;
        let ghost d1 = depth as int;
        while depth > target
            invariant
                target <= depth <= d1,
                0 <= target,
                env@ == envs,
                out@ + closes(depth as int, target as int, envs) == base2 + closes(d1, target as int, envs),
            decreases depth - target,
        {
            let ghost b = out@;
            push_indent(out, depth);
            out.append("\\end{");
            out.append(env);
            out.append("}\n");
            assert(out@ =~= b + indent(depth as int) + "\\end{"@ + envs + "}\n"@);
            depth -= 1;
        }
        let ghost base3 = out@;
        push_indent(out, depth + 1);
        out.append("\\item ");
        emit_runs(out, &items[k].1);
        out.append("\n");
        proof {
            assert(d0 <= target ==> closes(d0, target as int, envs) =~= Seq::<char>::empty());
            assert(d0 >= target ==> opens(d0, target as int, envs) =~= Seq::<char>::empty());
            assert(iv[k as int].1 == items[k as int].1.deep_view());
            assert(out@ + list_from(iv, k as int + 1, envs, depth as int) =~= base + list_from(iv, k as int, envs, d0));
        }
        k += 1;
    }
    let ghost base4 = out@;
    let ghost d2 = depth as int;
    while depth >= 0
        invariant
            -1 <= depth <= d2,
            env@ == envs,
            out@ + closes(depth as int, -1, envs) == base4 + closes(d2, -1, envs),
        decreases depth + 1,
    {
        let ghost b = out@;
        push_indent(out, depth);
        out.append("\\end{");
        out.append(env);
        out.append("}\n");
        assert(out@ =~= b + indent(depth as int) + "\\end{"@ + envs + "}\n"@);
        depth -= 1;
    }
    proof {
        assert(out@ =~= base4 + closes(d2, -1, envs));
        assert(out@ =~= start + list_from(iv, 0, envs, -1));
    }
}

// ── Table rendering ───────────────────────────────────────────────────────────

/// The `tabular` column specification for the given column widths (in
/// hundredths of a centimetre).
pub open spec fn col_spec(widths: Seq<u64>) -> Seq<char>
    decreases widths.len(),
{
    if widths.len() == 0 {
        Seq::empty()
    } else {
        col_spec(widths.drop_last()) + ">{\\raggedright\\arraybackslash}p{"@ + fixed2(widths.last() as nat) + "cm}|"@
    }
}

/// The cells of a row, rendered and joined with ` & `.
pub open spec fn cells_text(row: Seq<Seq<RunV>>) -> Seq<char>
    decreases row.len(),
{
    if row.len() == 0 {
        Seq::empty()
    } else if row.len() == 1 {
        fmt_runs(row[0], false, false)
    } else {
        cells_text(row.drop_last()) + " & "@ + fmt_runs(row.last(), false, false)
    }
}

/// The rule above the first row: booktabs' `\toprule`, or `\hline` for
/// IEEE.
pub open spec fn top_rule(template: Template) -> Seq<char> {
    if template == Template::Ieee { "    \\hline\n"@ } else { "    \\toprule\n"@ }
}

/// The rule below the header row: booktabs' `\midrule`, or `\hline` for
/// IEEE.
pub open spec fn mid_rule(template: Template) -> Seq<char> {
    if template == Template::Ieee { "    \\hline\n"@ } else { "    \\midrule\n"@ }
}

/// The rule below the last row: booktabs' `\bottomrule`, or `\hline` for
/// IEEE.
pub open spec fn bottom_rule(template: Template) -> Seq<char> {
    if template == Template::Ieee { "    \\hline\n"@ } else { "    \\bottomrule\n"@ }
}

pub open spec fn row_line(row: Seq<Seq<RunV>>, idx: int, template: Template) -> Seq<char> {
    "    "@ + cells_text(row) + " \\\\\n"@ + if idx == 0 { mid_rule(template) } else { Seq::empty() }
}

pub open spec fn rows_text(rows: Seq<Seq<Seq<RunV>>>, k: int, template: Template) -> Seq<char>
    decreases rows.len() - k,
{
    if k < 0 || k >= rows.len() {
        Seq::empty()
    } else {
        row_line(rows[k], k, template) + rows_text(rows, k + 1, template)
    }
}

pub open spec fn caption_line(caption: Option<Seq<char>>) -> Seq<char> {
    match caption {
        Some(c) => "  \\caption{"@ + escaped(c) + "}\n"@,
        None => Seq::empty(),
    }
}

/// A table: a `table` float with the caption above a ruled `tabular`
/// (booktabs rules, plain `\hline` rules for IEEE).
pub open spec fn table_text(
    rows: Seq<Seq<Seq<RunV>>>,
    caption: Option<Seq<char>>,
    widths: Seq<u64>,
    template: Template,
) -> Seq<char> {
    if rows.len() == 0 {
        Seq::empty()
    } else {
        "\\begin{table}[htbp]\n"@ + "  \\centering\n"@ + caption_line(caption) + "  {\\small\n"@
            + "  \\begin{tabular}{|"@ + col_spec(widths) + "}\n"@ + top_rule(template) + rows_text(rows, 0, template)
            + bottom_rule(template) + "  \\end{tabular}\n"@ + "  }\n"@ + "\\end{table}\n"@
    }
}

fn push_rule(out: &mut String, template: &Template, which: u8)
    ensures
        final(out)@ == old(out)@ + if which == 0 {
            top_rule(*template)
        } else if which == 1 {
            mid_rule(*template)
        } else {
            bottom_rule(*template)
        },
{
    match template {
        Template::Ieee => out.append("    \\hline\n"),
        _ => if which == 0 {
            out.append("    \\toprule\n")
        } else if which == 1 {
            out.append("    \\midrule\n")
        } else {
            out.append("    \\bottomrule\n")
        },
    }
}

fn emit_caption(out: &mut String, caption: &Option<String>)
    ensures
        final(out)@ == old(out)@ + caption_line(crate::model::opt_view(*caption)),
{
    match caption {
        Some(cap) => {
            out.append("  \\caption{");
            let e = escape(cap.as_str());
            out.append(e.as_str());
            out.append("}\n");
        },
        None => {},
    }
}

fn emit_row(out: &mut String, row: &Vec<Cell>, idx: usize, template: &Template)
    ensures
        final(out)@ == old(out)@ + row_line(row.deep_view(), idx as int, *template),
{
    let ghost start = out@;
    out.append("    ");
    let ghost base = out@;
    let mut i: usize = 0;
    while i < row.len()
        invariant
            i <= row.len(),
            out@ == base + cells_text(row.deep_view().take(i as int)),
        decreases row.len() - i,
    {
        let ghost before = out@;
        if i > 0 {
            out.append(" & ");
        }
        emit_runs(out, &row[i].runs);
        proof {
            lemma_take_next_deep_view(*row, i as int);
            let t = row.deep_view().take(i as int + 1);
            assert(t.drop_last() =~= row.deep_view().take(i as int));
            if i == 0 {
                assert(cells_text(row.deep_view().take(0)) =~= Seq::<char>::empty());
            }
            assert(out@ =~= base + cells_text(t));
        }
        i += 1;
    }
    assert(row.deep_view().take(i as int) =~= row.deep_view());
    out.append(" \\\\\n");
    if idx == 0 {
        push_rule(out, template, 1);
    }
    assert(out@ =~= start + row_line(row.deep_view(), idx as int, *template));
}

// ── Column statistics ────────────────────────────────────────────────────────

/// The number of UTF-8 bytes of a cell's text.
pub open spec fn runs_bytes(runs: Seq<RunV>) -> nat
    decreases runs.len(),
{
    if runs.len() == 0 {
        0
    } else {
        runs_bytes(runs.drop_last()) + utf8_len(runs.last().text)
    }
}

/// The total text bytes of the cells in column `i`, over all rows.
pub open spec fn column_bytes(rows: Seq<Seq<Seq<RunV>>>, i: int) -> nat
    decreases rows.len(),
{
    if rows.len() == 0 {
        0
    } else {
        column_bytes(rows.drop_last(), i) + if 0 <= i < rows.last().len() { runs_bytes(rows.last()[i]) } else { 0 }
    }
}

/// The number of rows that have a cell in column `i`.
pub open spec fn column_cells(rows: Seq<Seq<Seq<RunV>>>, i: int) -> nat
    decreases rows.len(),
{
    if rows.len() == 0 {
        0
    } else {
        column_cells(rows.drop_last(), i) + if 0 <= i < rows.last().len() { 1nat } else { 0nat }
    }
}

/// The number of columns of a table: the length of its longest row (1 for
/// a table without rows).
pub open spec fn column_count_of(rows: Seq<Seq<Seq<RunV>>>) -> nat
    decreases rows.len(),
{
    if rows.len() == 0 {
        1
    } else if rows.len() == 1 {
        rows[0].len()
    } else {
        let m = column_count_of(rows.drop_last());
        if rows.last().len() > m { rows.last().len() } else { m }
    }
}

/// The number of columns of a table.
pub fn column_count(rows: &Vec<Vec<Cell>>) -> (n: usize)
    ensures
        n == column_count_of(rows.deep_view()),
{
    if rows.len() == 0 {
        return 1;
    }
    let mut m = rows[0].len();
    let mut i: usize = 1;
    assert(rows.deep_view().take(1).drop_last().len() == 0);
    assert(rows.deep_view().take(1) =~= seq![rows.deep_view()[0]]);
    while i < rows.len()
        invariant
            1 <= i <= rows.len(),
            m == column_count_of(rows.deep_view().take(i as int)),
        decreases rows.len() - i,
    {
        let ghost t = rows.deep_view().take(i as int + 1);
        assert(t.drop_last() =~= rows.deep_view().take(i as int));
        assert(t.last() == rows[i as int].deep_view());
        if rows[i].len() > m {
            m = rows[i].len();
        }
        i += 1;
    }
    assert(rows.deep_view().take(i as int) =~= rows.deep_view());
    m
}

/// The UTF-8 byte count of a text; `None` if it exceeds `u64`.
fn text_bytes(s: &str) -> (r: Option<u64>)
    ensures
        match r {
            Some(n) => n == utf8_len(s@),
            None => utf8_len(s@) > u64::MAX,
        },
{
    let v = chars_of(s);
    let mut total: u64 = 0;
    let mut i: usize = 0;
    while i < v.len()
        invariant
            i <= v.len(),
            v@ == s@,
            total == utf8_len(v@.take(i as int)),
        decreases v.len() - i,
    {
        let u = v[i] as u32;
        let w: u64 = if u < 0x80 { 1 } else if u < 0x800 { 2 } else if u < 0x10000 { 3 } else { 4 };
        assert(v@.take(i as int + 1).drop_last() =~= v@.take(i as int));
        match total.checked_add(w) {
            Some(t) => { total = t; },
            None => {
                proof { crate::text::lemma_utf8_len_prefix_mono(v@, i as int + 1); }
                return None;
            },
        }
        i += 1;
    }
    assert(v@.take(i as int) =~= v@);
    Some(total)
}

/// The UTF-8 byte count of a cell's text; `None` if it exceeds `u64`.
fn cell_bytes(runs: &Vec<Run>) -> (r: Option<u64>)
    ensures
        match r {
            Some(n) => n == runs_bytes(runs.deep_view()),
            None => runs_bytes(runs.deep_view()) > u64::MAX,
        },
{
    let mut total: u64 = 0;
    let mut i: usize = 0;
    while i < runs.len()
        invariant
            i <= runs.len(),
            total == runs_bytes(runs.deep_view().take(i as int)),
        decreases runs.len() - i,
    {
        let ghost t = runs.deep_view().take(i as int + 1);
        assert(t.drop_last() =~= runs.deep_view().take(i as int));
        assert(t.last() == runs[i as int].deep_view());
        match text_bytes(runs[i].text.as_str()) {
            Some(n) => match total.checked_add(n) {
                Some(s) => { total = s; },
                None => {
                    proof { lemma_runs_bytes_prefix(runs.deep_view(), i as int + 1); }
                    return None;
                },
            },
            None => {
                proof { lemma_runs_bytes_prefix(runs.deep_view(), i as int + 1); }
                return None;
            },
        }
        i += 1;
    }
    assert(runs.deep_view().take(i as int) =~= runs.deep_view());
    Some(total)
}

proof fn lemma_runs_bytes_prefix(runs: Seq<RunV>, n: int)
    requires
        0 <= n <= runs.len(),
    ensures
        runs_bytes(runs.take(n)) <= runs_bytes(runs),
    decreases runs.len(),
{
    if n < runs.len() {
        assert(runs.take(n) =~= runs.drop_last().take(n));
        lemma_runs_bytes_prefix(runs.drop_last(), n);
    } else {
        assert(runs.take(n) =~= runs);
    }
}

proof fn lemma_column_bytes_prefix(rows: Seq<Seq<Seq<RunV>>>, n: int, i: int)
    requires
        0 <= n <= rows.len(),
    ensures
        column_bytes(rows.take(n), i) <= column_bytes(rows, i),
        column_cells(rows.take(n), i) <= column_cells(rows, i),
        column_cells(rows, i) <= rows.len(),
    decreases rows.len(),
{
    if rows.len() > 0 {
        if n < rows.len() {
            assert(rows.take(n) =~= rows.drop_last().take(n));
        } else {
            assert(rows.take(n) =~= rows);
        }
        lemma_column_bytes_prefix(rows.drop_last(), if n < rows.len() { n } else { n - 1 }, i);
    }
}

/// For each of the first `col_count` columns, the total text bytes of its
/// cells and the number of rows that have a cell there; `None` if a total
/// exceeds `u64`.  The column widths of a table are computed from these.
pub fn column_stats(rows: &Vec<Vec<Cell>>, col_count: usize) -> (r: Option<Vec<(u64, u64)>>)
    ensures
        match r {
            Some(v) => v.len() == col_count && forall|i: int| 0 <= i < col_count ==> #[trigger] v@[i] == (
                column_bytes(rows.deep_view(), i) as u64,
                column_cells(rows.deep_view(), i) as u64,
            ) && column_bytes(rows.deep_view(), i) <= u64::MAX,
            None => exists|i: int| 0 <= i < col_count && column_bytes(rows.deep_view(), i) > u64::MAX,
        },
{
    let ghost rs = rows.deep_view();
    let mut out: Vec<(u64, u64)> = Vec::new();
    let mut c: usize = 0;
    while c < col_count
        invariant
            c <= col_count,
            rs == rows.deep_view(),
            out.len() == c,
            forall|i: int| 0 <= i < c ==> #[trigger] out@[i] == (column_bytes(rs, i) as u64, column_cells(rs, i) as u64)
                && column_bytes(rs, i) <= u64::MAX,
        decreases col_count - c,
    {
        let mut sum: u64 = 0;
        let mut cnt: u64 = 0;
        let mut k: usize = 0;
        while k < rows.len()
            invariant
                k <= rows.len(),
                c < col_count,
                rs == rows.deep_view(),
                sum == column_bytes(rs.take(k as int), c as int),
                cnt == column_cells(rs.take(k as int), c as int),
                cnt <= k,
            decreases rows.len() - k,
        {
            let ghost t = rs.take(k as int + 1);
            assert(t.drop_last() =~= rs.take(k as int));
            assert(t.last() == rows[k as int].deep_view());
            if c < rows[k].len() {
                assert(rows[k as int].deep_view()[c as int] == rows[k as int]@[c as int].deep_view());
                match cell_bytes(&rows[k][c].runs) {
                    Some(n) => match sum.checked_add(n) {
                        Some(s) => { sum = s; },
                        None => {
                            proof { lemma_column_bytes_prefix(rs, k as int + 1, c as int); }
                            return None;
                        },
                    },
                    None => {
                        proof { lemma_column_bytes_prefix(rs, k as int + 1, c as int); }
                        return None;
                    },
                }
                cnt += 1;
            }
            k += 1;
        }
        assert(rs.take(k as int) =~= rs);
        out.push((sum, cnt));
        c += 1;
    }
    Some(out)
}

/// Appends a table whose columns have the given widths (hundredths of a cm).
#[verifier::rlimit(40)]
pub fn emit_table(
    out: &mut String,
    rows: &Vec<Vec<Cell>>,
    template: &Template,
    caption: &Option<String>,
    widths: &Vec<u64>,
)
    ensures
        final(out)@ == old(out)@ + table_text(rows.deep_view(), crate::model::opt_view(*caption), widths@, *template),
{
    if rows.len() == 0 {
        return;
    }
    let ghost start = out@;
    out.append("\\begin{table}[htbp]\n");
    out.append("  \\centering\n");
    emit_caption(out, caption);
    out.append("  {\\small\n");
    out.append("  \\begin{tabular}{|");
    let ghost b1 = out@;
    let mut i: usize = 0;
    while i < widths.len()
        invariant
            i <= widths.len(),
            out@ == b1 + col_spec(widths@.take(i as int)),
        decreases widths.len() - i,
    {
        out.append(">{\\raggedright\\arraybackslash}p{");
        push_fixed2(out, widths[i]);
        out.append("cm}|");
        assert(widths@.take(i as int + 1).drop_last() =~= widths@.take(i as int));
        i += 1;
    }
    assert(widths@.take(i as int) =~= widths@);
    out.append("}\n");
    push_rule(out, template, 0);
    let ghost b2 = out@;
    let mut r: usize = 0;
    while r < rows.len()
        invariant
            r <= rows.len(),
            out@ + rows_text(rows.deep_view(), r as int, *template) == b2 + rows_text(rows.deep_view(), 0, *template),
        decreases rows.len() - r,
    {
        let ghost before = out@;
        emit_row(out, &rows[r], r, template);
        assert(rows.deep_view()[r as int] == rows[r as int].deep_view());
        assert(out@ + rows_text(rows.deep_view(), r as int + 1, *template) =~= before + rows_text(
            rows.deep_view(),
            r as int,
            *template,
        ));
        r += 1;
    }
    assert(out@ =~= b2 + rows_text(rows.deep_view(), 0, *template));
    push_rule(out, template, 2);
    out.append("  \\end{tabular}\n");
    out.append("  }\n");
    out.append("\\end{table}\n");
    assert(out@ =~= start + table_text(rows.deep_view(), crate::model::opt_view(*caption), widths@, *template));
}

// ── Images ────────────────────────────────────────────────────────────────────

/// Image formats that pdfLaTeX cannot include (judged by the lower-cased extension).
pub open spec fn is_unsupported_image(path: Seq<char>) -> bool {
    let ext = unicode_lowercase(
        match crate::media::path_extension_of(path) {
            Some(e) => e,
            None => Seq::empty(),
        },
    );
    ext == "emf"@ || ext == "wmf"@ || ext == "svg"@ || ext == "tiff"@ || ext == "tif"@ || ext == "bmp"@
}

fn unsupported_image(path: &String) -> (b: bool)
    ensures
        b == is_unsupported_image(path@),
{
    let ext = match crate::media::path_extension(path.as_str()) {
        Some(e) => e,
        None => String::new(),
    };
    let lower = crate::text::to_lowercase(ext.as_str());
    let l = chars_of(lower.as_str());
    is_keyword(&l, "emf") || is_keyword(&l, "wmf") || is_keyword(&l, "svg") || is_keyword(&l, "tiff")
        || is_keyword(&l, "tif") || is_keyword(&l, "bmp")
}

/// The widest image (in EMU, 914400 per inch) that fits the text block of a template.
pub open spec fn max_width_emu(template: Template) -> u64 {
    match template {
        Template::Default => 5_580_000,
        Template::Ieee => 3_200_400,
        Template::Thesis => 5_400_000,
    }
}

fn max_text_width_emu(template: &Template) -> (w: u64)
    ensures
        w == max_width_emu(*template),
{
    match template {
        Template::Default => 5_580_000,
        Template::Ieee => 3_200_400,
        Template::Thesis => 5_400_000,
    }
}

/// An EMU length in hundredths of a centimetre, rounded to the nearest.
pub open spec fn emu_hundredths(emu: u64) -> nat {
    ((emu as nat) + 1800) / 3600
}

pub open spec fn image_width_text(width_emu: Option<u64>, template: Template) -> Seq<char> {
    match width_emu {
        Some(e) => if e <= max_width_emu(template) {
            fixed2(emu_hundredths(e)) + "cm"@
        } else {
            "\\linewidth"@
        },
        None => "\\linewidth"@,
    }
}

/// An image: a comment for formats pdfLaTeX cannot include, otherwise a
/// `figure` float with the image at its own width (or the line width when it
/// is unknown or too wide) and its caption.
pub open spec fn image_text(path: Seq<char>, width_emu: Option<u64>, caption: Option<Seq<char>>, template: Template) -> Seq<char> {
    if is_unsupported_image(path) {
        "% [image skipped: '"@ + path + "' is not supported by pdfLaTeX \u{2014} convert to PNG/PDF first]\n"@
    } else {
        "\\begin{figure}[htbp]\n"@ + "  \\centering\n"@ + "  \\includegraphics[width="@ + image_width_text(width_emu, template)
            + "]{"@ + path + "}\n"@ + caption_line(caption) + "\\end{figure}\n"@
    }
}

pub fn emu_to_hundredths(e: u64) -> (h: u64)
    ensures
        h == emu_hundredths(e),
{
    (e / 3600) + (if e % 3600 >= 1800 { 1 } else { 0 })
}

fn emit_image(out: &mut String, path: &String, width_emu: Option<u64>, caption: &Option<String>, template: &Template)
    ensures
        final(out)@ == old(out)@ + image_text(path@, width_emu, crate::model::opt_view(*caption), *template),
{
    let ghost start = out@;
    if unsupported_image(path) {
        out.append("% [image skipped: '");
        out.append(path.as_str());
        out.append("' is not supported by pdfLaTeX \u{2014} convert to PNG/PDF first]\n");
        return;
    }
    out.append("\\begin{figure}[htbp]\n");
    out.append("  \\centering\n");
    out.append("  \\includegraphics[width=");
    let ghost b = out@;
    match width_emu {
        Some(e) => {
            if e <= max_text_width_emu(template) {
                push_fixed2(out, emu_to_hundredths(e));
                out.append("cm");
            } else {
                out.append("\\linewidth");
            }
        },
        None => {
            out.append("\\linewidth");
        },
    }
    assert(out@ =~= b + image_width_text(width_emu, *template));
    out.append("]{");
    out.append(path.as_str());
    out.append("}\n");
    emit_caption(out, caption);
    out.append("\\end{figure}\n");
    assert(out@ =~= start + image_text(path@, width_emu, crate::model::opt_view(*caption), *template));
}

// ── Element rendering ─────────────────────────────────────────────────────────

pub open spec fn chapter_star(text: Seq<char>) -> Seq<char> {
    "\\chapter*{"@ + escaped(text) + "}\n"@ + "\\addcontentsline{toc}{chapter}{"@ + escaped(text) + "}\n"@
}

pub open spec fn heading_out(level: u8, runs: Seq<RunV>, template: Template, seen: bool) -> (Seq<char>, bool) {
    let sr = stripped_runs(runs);
    let body = fmt_runs(sr, false, false);
    match template {
        Template::Thesis => if level == 1 {
            ("\\chapter{"@ + body + "}\n"@, true)
        } else if level == 2 {
            let text = trim(runs_text(sr));
            if is_front_matter(text) || !seen {
                (chapter_star(text), seen)
            } else {
                ("\\section{"@ + body + "}\n"@, seen)
            }
        } else if level == 3 {
            ("\\subsection{"@ + body + "}\n"@, seen)
        } else {
            ("\\subsubsection{"@ + body + "}\n"@, seen)
        },
        _ => ("\\"@ + heading_command_of(level, template) + "{"@ + body + "}\n"@, seen),
    }
}

pub open spec fn paragraph_out(runs: Seq<RunV>, template: Template, prev_was_page_break: bool) -> Seq<char> {
    let text = trim(runs_text(runs));
    if runs.len() == 0 {
        "\n"@
    } else if template == Template::Thesis && is_front_matter(text) {
        (if prev_was_page_break { Seq::empty() } else { "\\clearpage\n"@ }) + chapter_star(text)
    } else {
        fmt_runs(runs, false, false) + "\n\n"@
    }
}

/// The LaTeX of one body element, and whether a numbered thesis chapter has
/// been seen after it.
#[verifier::opaque]
pub open spec fn element_out(
    e: ElementV,
    template: Template,
    seen: bool,
    prev_was_page_break: bool,
    widths: Seq<u64>,
) -> (Seq<char>, bool) {
    match e {
        ElementV::Heading { level, runs } => heading_out(level, runs, template, seen),
        ElementV::Paragraph { runs } => (paragraph_out(runs, template, prev_was_page_break), seen),
        ElementV::List { ordered, items } => (list_text(ordered, items), seen),
        ElementV::Table { rows, caption } => (table_text(rows, caption, widths, template), seen),
        ElementV::Image { path, width_emu, caption } => (image_text(path, width_emu, caption, template), seen),
        ElementV::PageBreak => ("\\clearpage\n"@, seen),
        ElementV::TocBlock => ("\\tableofcontents\n\\clearpage\n"@, seen),
        ElementV::LofBlock => ("\\phantomsection\n\\addcontentsline{toc}{chapter}{LIST OF FIGURES}\n\\listoffigures\n\\clearpage\n"@, seen),
        ElementV::LotBlock => ("\\phantomsection\n\\addcontentsline{toc}{chapter}{LIST OF TABLES}\n\\listoftables\n\\clearpage\n"@, seen),
    }
}

fn emit_chapter_star(out: &mut String, text: &Vec<char>)
    ensures
        final(out)@ == old(out)@ + chapter_star(text@),
{
    let ts = crate::text::string_of(text, 0, text.len());
    assert(text@.subrange(0, text@.len() as int) =~= text@);
    let e = escape(ts.as_str());
    out.append("\\chapter*{");
    out.append(e.as_str());
    out.append("}\n");
    out.append("\\addcontentsline{toc}{chapter}{");
    out.append(e.as_str());
    out.append("}\n");
}

fn emit_wrapped_runs(out: &mut String, open: &str, runs: &Vec<Run>)
    ensures
        final(out)@ == old(out)@ + open@ + fmt_runs(runs.deep_view(), false, false) + "}\n"@,
{
    out.append(open);
    emit_runs(out, runs);
    out.append("}\n");
}

/// Appends one body element; returns whether a numbered thesis chapter has been seen.
#[verifier::rlimit(60)]
pub fn emit_element(
    out: &mut String,
    element: &Element,
    template: &Template,
    seen_numbered_chapter: bool,
    prev_was_page_break: bool,
    widths: &Vec<u64>,
) -> (seen: bool)
    ensures
        (final(out)@, seen) == ({
            let r = element_out(element.deep_view(), *template, seen_numbered_chapter, prev_was_page_break, widths@);
            (old(out)@ + r.0, r.1)
        }),
{
    reveal(element_out);
    let ghost start = out@;
    match element {
        Element::Heading { level, runs } => {
            let stripped = strip_runs_prefix(runs);
            match template {
                Template::Thesis => {
                    if *level == 1 {
                        emit_wrapped_runs(out, "\\chapter{", &stripped);
                        return true;
                    } else if *level == 2 {
                        let raw = concat_runs(&stripped);
                        let text = trim_chars(&raw);
                        if is_front_matter_heading(&text) || !seen_numbered_chapter {
                            emit_chapter_star(out, &text);
                        } else {
                            emit_wrapped_runs(out, "\\section{", &stripped);
                        }
                    } else if *level == 3 {
                        emit_wrapped_runs(out, "\\subsection{", &stripped);
                    } else {
                        emit_wrapped_runs(out, "\\subsubsection{", &stripped);
                    }
                },
                _ => {
                    let cmd = heading_command(*level, template);
                    out.append("\\");
                    out.append(cmd);
                    out.append("{");
                    emit_runs(out, &stripped);
                    out.append("}\n");
                    assert(out@ =~= start + "\\"@ + heading_command_of(*level, *template) + "{"@
                        + fmt_runs(stripped.deep_view(), false, false) + "}\n"@);
                },
            }
            seen_numbered_chapter
        },
        Element::Paragraph { runs } => {
            if runs.len() == 0 {
                out.append("\n");
                return seen_numbered_chapter;
            }
            if matches!(template, Template::Thesis) {
                let raw = concat_runs(runs);
                let text = trim_chars(&raw);
                if is_front_matter_heading(&text) {
                    if !prev_was_page_break {
                        out.append("\\clearpage\n");
                    }
                    emit_chapter_star(out, &text);
                    assert(out@ =~= start + paragraph_out(runs.deep_view(), *template, prev_was_page_break));
                    return seen_numbered_chapter;
                }
            }
            emit_runs(out, runs);
            out.append("\n\n");
            seen_numbered_chapter
        },
        Element::List { ordered, items } => {
            emit_nested_list(out, *ordered, items);
            seen_numbered_chapter
        },
        Element::Table { rows, caption } => {
            emit_table(out, rows, template, caption, widths);
            seen_numbered_chapter
        },
        Element::Image { path, width_emu, caption } => {
            emit_image(out, path, *width_emu, caption, template);
            seen_numbered_chapter
        },
        Element::PageBreak => {
            out.append("\\clearpage\n");
            seen_numbered_chapter
        },
        Element::TocBlock => {
            out.append("\\tableofcontents\n\\clearpage\n");
            seen_numbered_chapter
        },
        Element::LofBlock => {
            out.append("\\phantomsection\n\\addcontentsline{toc}{chapter}{LIST OF FIGURES}\n\\listoffigures\n\\clearpage\n");
            seen_numbered_chapter
        },
        Element::LotBlock => {
            out.append("\\phantomsection\n\\addcontentsline{toc}{chapter}{LIST OF TABLES}\n\\listoftables\n\\clearpage\n");
            seen_numbered_chapter
        },
    }
}

// ── Title page rendering ──────────────────────────────────────────────────────

pub open spec fn has_lowercase(s: Seq<char>) -> bool {
    exists|i: int| 0 <= i < s.len() && unicode_lower(#[trigger] s[i])
}

pub open spec fn has_uppercase(s: Seq<char>) -> bool {
    exists|i: int| 0 <= i < s.len() && unicode_upper(#[trigger] s[i])
}

/// The institution words at which an ALL-CAPS run-together text is split, in order.
pub open spec fn caps_boundary(k: int) -> Seq<char> {
    if k == 0 {
        "UNIVERSITY"@
    } else if k == 1 {
        "POLYTECHNIC"@
    } else if k == 2 {
        "INSTITUTE"@
    } else if k == 3 {
        "COLLEGE"@
    } else if k == 4 {
        "FACULTY"@
    } else if k == 5 {
        "DEPARTMENT"@
    } else if k == 6 {
        "SCHOOL"@
    } else if k == 7 {
        "ENGINEERING"@
    } else if k == 8 {
        "TECHNOLOGY"@
    } else if k == 9 {
        "SCIENCES"@
    } else {
        "MANAGEMENT"@
    }
}

/// A space inserted before the first of the boundary words (from the `k`-th on)
/// that occurs in `text` other than at its start.
pub open spec fn caps_fix(text: Seq<char>, k: int) -> Seq<char>
    decreases 11 - k,
{
    if k < 0 || k >= 11 {
        text
    } else {
        match find_from(text, caps_boundary(k), 0) {
            Some(pos) => if pos > 0 {
                text.take(pos) + " "@ + text.skip(pos)
            } else {
                caps_fix(text, k + 1)
            },
            None => caps_fix(text, k + 1),
        }
    }
}

/// ALL-CAPS text without spaces, such as "KYAMBOGOUNIVERSITY", gets a space
/// before its first institution word; other text is unchanged.
pub open spec fn normalized_caps(text: Seq<char>) -> Seq<char> {
    if contains(text, " "@) || has_lowercase(text) {
        text
    } else {
        caps_fix(text, 0)
    }
}

fn boundary_word(k: usize) -> (w: &'static str)
    requires
        k < 11,
    ensures
        w@ == caps_boundary(k as int),
{
    match k {
        0 => "UNIVERSITY",
        1 => "POLYTECHNIC",
        2 => "INSTITUTE",
        3 => "COLLEGE",
        4 => "FACULTY",
        5 => "DEPARTMENT",
        6 => "SCHOOL",
        7 => "ENGINEERING",
        8 => "TECHNOLOGY",
        9 => "SCIENCES",
        _ => "MANAGEMENT",
    }
}

fn any_lowercase(v: &Vec<char>) -> (b: bool)
    ensures
        b == has_lowercase(v@),
{
    let mut i: usize = 0;
    while i < v.len()
        invariant
            i <= v.len(),
            forall|j: int| 0 <= j < i ==> !unicode_lower(#[trigger] v@[j]),
        decreases v.len() - i,
    {
        if crate::text::is_lowercase(v[i]) {
            return true;
        }
        i += 1;
    }
    false
}

fn any_uppercase(v: &Vec<char>) -> (b: bool)
    ensures
        b == has_uppercase(v@),
{
    let mut i: usize = 0;
    while i < v.len()
        invariant
            i <= v.len(),
            forall|j: int| 0 <= j < i ==> !unicode_upper(#[trigger] v@[j]),
        decreases v.len() - i,
    {
        if crate::text::is_uppercase(v[i]) {
            return true;
        }
        i += 1;
    }
    false
}

/// Fix ALL-CAPS text where Word merged two words without a space (e.g.
/// "KYAMBOGOUNIVERSITY" → "KYAMBOGO UNIVERSITY").
pub fn normalize_caps_spaces(text: &Vec<char>) -> (r: Vec<char>)
    ensures
        r@ == normalized_caps(text@),
{
    if contains_str(text, " ") || any_lowercase(text) {
        return slice_of(text, 0, text.len());
    }
    let mut k: usize = 0;
    while k < 11
        invariant
            k <= 11,
            !contains(text@, " "@),
            !has_lowercase(text@),
            caps_fix(text@, 0) == caps_fix(text@, k as int),
        decreases 11 - k,
    {
        let b = chars_of(boundary_word(k));
        match find_first(text, &b) {
            Some(pos) => {
                if pos > 0 {
                    proof {
                        assert(occurs_at(text@, b@, pos as int)) by {
                            crate::text::lemma_find_from_occurs(text@, b@, 0);
                        }
                    }
                    let mut r = slice_of(text, 0, pos);
                    r.push(' ');
                    let tail = slice_of(text, pos, text.len());
                    let mut j: usize = 0;
                    let ghost head = r@;
                    while j < tail.len()
                        invariant
                            j <= tail.len(),
                            r@ == head + tail@.take(j as int),
                        decreases tail.len() - j,
                    {
                        r.push(tail[j]);
                        j += 1;
                        assert(r@ =~= head + tail@.take(j as int));
                    }
                    assert(tail@.take(j as int) =~= tail@);
                    proof {
                        reveal_strlit(" ");
                        assert(r@ =~= text@.take(pos as int) + " "@ + text@.skip(pos as int));
                        assert(b@ == caps_boundary(k as int));
                        assert(caps_fix(text@, k as int) == text@.take(pos as int) + " "@ + text@.skip(pos as int));
                    }
                    return r;
                }
            },
            None => {},
        }
        k += 1;
    }
    slice_of(text, 0, text.len())
}

pub open spec fn is_institution(lower: Seq<char>) -> bool {
    contains(lower, "university"@) || contains(lower, "department"@) || contains(lower, "faculty"@)
        || contains(lower, "college"@) || contains(lower, "school of"@)
}

pub open spec fn is_meta_line(lower: Seq<char>) -> bool {
    ||| starts_with(lower, "registration"@)
    ||| starts_with(lower, "supervisor"@)
    ||| starts_with(lower, "by"@)
    ||| starts_with(lower, "submitted"@)
    ||| starts_with(lower, "june "@)
    ||| starts_with(lower, "july "@)
    ||| starts_with(lower, "august "@)
    ||| starts_with(lower, "september "@)
    ||| starts_with(lower, "october "@)
    ||| starts_with(lower, "november "@)
    ||| starts_with(lower, "december "@)
    ||| starts_with(lower, "january "@)
    ||| starts_with(lower, "february "@)
    ||| starts_with(lower, "march "@)
    ||| starts_with(lower, "april "@)
    ||| starts_with(lower, "may 2"@)
}

/// A title-page paragraph: institution names, the main title (the first long
/// ALL-CAPS line, between rules), subtitles, short ALL-CAPS lines, meta lines
/// (date, supervisor, registration, "By") and the italic submission statement.
pub open spec fn title_paragraph_out(runs: Seq<RunV>, title_emitted: bool) -> (Seq<char>, bool) {
    let text = normalized_caps(trim(runs_text(runs)));
    let caps = !has_lowercase(text) && has_uppercase(text);
    let wc = word_count(text);
    let lower = unicode_lowercase(text);
    let inst = is_institution(lower);
    if text.len() == 0 {
        (Seq::empty(), title_emitted)
    } else if caps && wc > 3 && inst {
        ("{\\normalsize \\textbf{"@ + escaped(text) + "}}\\\\[0.3cm]\n\n"@, title_emitted)
    } else if caps && !inst && wc > 3 && !title_emitted {
        (
            "  \\rule{\\linewidth}{0.5pt}\\\\[0.4cm]\n"@ + "  {\\Large \\textbf{"@ + fmt_runs(runs, true, false)
                + "}}\\\\[0.4cm]\n"@ + "  \\rule{\\linewidth}{0.5pt}\\\\[1.2cm]\n\n"@,
            true,
        )
    } else if caps && !inst && wc > 3 {
        ("  {\\large \\textbf{"@ + fmt_runs(runs, true, false) + "}}\\\\[0.5cm]\n\n"@, title_emitted)
    } else if caps && inst {
        ("  {\\large \\textbf{"@ + escaped(text) + "}}\\\\[0.3cm]\n\n"@, title_emitted)
    } else if caps {
        ("  {\\large \\textbf{"@ + fmt_runs(runs, true, false) + "}}\\\\[0.4cm]\n\n"@, title_emitted)
    } else if is_meta_line(lower) {
        ("  {\\normalsize "@ + fmt_runs(runs, false, false) + "}\\\\[0.5cm]\n\n"@, title_emitted)
    } else {
        ("  {\\normalsize \\textit{"@ + fmt_runs(runs, false, true) + "}}\\\\[1.0cm]\n\n"@, title_emitted)
    }
}

/// Title-page logo width in hundredths of a cm: the image width capped at
/// 4.5 cm, or 4 cm when unknown.
pub open spec fn title_image_hundredths(width_emu: Option<u64>) -> nat {
    match width_emu {
        Some(e) => emu_hundredths(if e <= 1_620_000 { e } else { 1_620_000 }),
        None => 400,
    }
}

pub open spec fn title_element_out(e: ElementV, title_emitted: bool) -> (Seq<char>, bool) {
    match e {
        ElementV::Image { path, width_emu, .. } => if is_unsupported_image(path) {
            (Seq::empty(), title_emitted)
        } else {
            (
                "  \\includegraphics[width="@ + fixed2(title_image_hundredths(width_emu)) + "cm]{"@ + path
                    + "}\\\\[0.8cm]\n\n"@,
                title_emitted,
            )
        },
        ElementV::Paragraph { runs } => title_paragraph_out(runs, title_emitted),
        _ => (Seq::empty(), title_emitted),
    }
}

pub open spec fn title_page_from(s: Seq<ElementV>, i: int, title_emitted: bool) -> Seq<char>
    decreases s.len() - i,
{
    if i < 0 || i >= s.len() {
        Seq::empty()
    } else {
        let r = title_element_out(s[i], title_emitted);
        r.0 + title_page_from(s, i + 1, r.1)
    }
}

fn starts_any(lower: &Vec<char>) -> (b: bool)
    ensures
        b == is_meta_line(lower@),
{
    starts_with_str(lower, "registration") || starts_with_str(lower, "supervisor")
        || starts_with_str(lower, "by") || starts_with_str(lower, "submitted")
        || starts_with_str(lower, "june ") || starts_with_str(lower, "july ")
        || starts_with_str(lower, "august ") || starts_with_str(lower, "september ")
        || starts_with_str(lower, "october ") || starts_with_str(lower, "november ")
        || starts_with_str(lower, "december ") || starts_with_str(lower, "january ")
        || starts_with_str(lower, "february ") || starts_with_str(lower, "march ")
        || starts_with_str(lower, "april ") || starts_with_str(lower, "may 2")
}

fn emit_escaped_chars(out: &mut String, v: &Vec<char>)
    ensures
        final(out)@ == old(out)@ + escaped(v@),
{
    let s = crate::text::string_of(v, 0, v.len());
    assert(v@.subrange(0, v@.len() as int) =~= v@);
    let e = escape(s.as_str());
    out.append(e.as_str());
}

fn emit_title_paragraph(out: &mut String, runs: &Vec<Run>, title_emitted: bool) -> (emitted: bool)
    ensures
        (final(out)@, emitted) == ({
            let r = title_paragraph_out(runs.deep_view(), title_emitted);
            (old(out)@ + r.0, r.1)
        }),
{
    let ghost start = out@;
    let raw = concat_runs(runs);
    let trimmed = trim_chars(&raw);
    let text = normalize_caps_spaces(&trimmed);
    if text.len() == 0 {
        return title_emitted;
    }
    let caps = !any_lowercase(&text) && any_uppercase(&text);
    let wc = count_words(&text);
    let lower = lowercase_chars(&text);
    let inst = contains_str(&lower, "university") || contains_str(&lower, "department")
        || contains_str(&lower, "faculty") || contains_str(&lower, "college") || contains_str(&lower, "school of");
    if caps && wc > 3 && inst {
        out.append("{\\normalsize \\textbf{");
        emit_escaped_chars(out, &text);
        out.append("}}\\\\[0.3cm]\n\n");
        title_emitted
    } else if caps && !inst && wc > 3 && !title_emitted {
        out.append("  \\rule{\\linewidth}{0.5pt}\\\\[0.4cm]\n");
        out.append("  {\\Large \\textbf{");
        emit_runs_stripped(out, runs, true, false);
        out.append("}}\\\\[0.4cm]\n");
        out.append("  \\rule{\\linewidth}{0.5pt}\\\\[1.2cm]\n\n");
        true
    } else if caps && !inst && wc > 3 {
        out.append("  {\\large \\textbf{");
        emit_runs_stripped(out, runs, true, false);
        out.append("}}\\\\[0.5cm]\n\n");
        title_emitted
    } else if caps && inst {
        out.append("  {\\large \\textbf{");
        emit_escaped_chars(out, &text);
        out.append("}}\\\\[0.3cm]\n\n");
        title_emitted
    } else if caps {
        out.append("  {\\large \\textbf{");
        emit_runs_stripped(out, runs, true, false);
        out.append("}}\\\\[0.4cm]\n\n");
        title_emitted
    } else if starts_any(&lower) {
        out.append("  {\\normalsize ");
        emit_runs(out, runs);
        out.append("}\\\\[0.5cm]\n\n");
        title_emitted
    } else {
        out.append("  {\\normalsize \\textit{");
        emit_runs_stripped(out, runs, false, true);
        out.append("}}\\\\[1.0cm]\n\n");
        title_emitted
    }
}

/// One element of the thesis title page; returns whether the title has been
/// emitted afterwards.
fn emit_title_element(out: &mut String, e: &Element, title_emitted: bool) -> (r: bool)
    ensures
        final(out)@ == old(out)@ + title_element_out(e.deep_view(), title_emitted).0,
        r == title_element_out(e.deep_view(), title_emitted).1,
{
    match e {
        Element::Image { path, width_emu, .. } => {
            if !unsupported_image(path) {
                let ghost start = out@;
                let w: u64 = match width_emu {
                    Some(e) => emu_to_hundredths(if *e <= 1_620_000 { *e } else { 1_620_000 }),
                    None => 400,
                };
                out.append("  \\includegraphics[width=");
                push_fixed2(out, w);
                out.append("cm]{");
                out.append(path.as_str());
                out.append("}\\\\[0.8cm]\n\n");
                assert(out@ =~= start + title_element_out(e.deep_view(), title_emitted).0);
            } else {
                assert(title_element_out(e.deep_view(), title_emitted).0 =~= Seq::<char>::empty());
            }
            title_emitted
        },
        Element::Paragraph { runs } => emit_title_paragraph(out, runs, title_emitted),
        _ => {
            assert(title_element_out(e.deep_view(), title_emitted).0 =~= Seq::<char>::empty());
            title_emitted
        },
    }
}

/// Render the elements that belong to the thesis title page.
pub fn emit_title_page(out: &mut String, elements: &Vec<Element>, end: usize)
    requires
        end <= elements.len(),
    ensures
        final(out)@ == old(out)@ + title_page_from(elements.deep_view().take(end as int), 0, false),
{
    let ghost s = elements.deep_view().take(end as int);
    let ghost start = out@;
    let mut title_emitted = false;
    let mut i: usize = 0;
    while i < end
        invariant
            i <= end <= elements.len(),
            s == elements.deep_view().take(end as int),
            start + title_page_from(s, 0, false) == out@ + title_page_from(s, i as int, title_emitted),
        decreases end - i,
    {
        let ghost before = out@;
        let ghost emitted0 = title_emitted;
        assert(s[i as int] == elements[i as int].deep_view());
        title_emitted = emit_title_element(out, &elements[i], title_emitted);
        assert(out@ + title_page_from(s, i as int + 1, title_emitted) =~= before + title_page_from(s, i as int, emitted0));
        i += 1;
    }
    assert(out@ =~= start + title_page_from(s, 0, false));
}

// ── Preamble ──────────────────────────────────────────────────────────────────

pub open spec fn template_packages(template: Template) -> Seq<char> {
    match template {
        Template::Default => "\\documentclass[12pt,a4paper]{article}\n\\usepackage[T1]{fontenc}\n\\usepackage[utf8]{inputenc}\n\\usepackage[margin=2.5cm]{geometry}\n\\usepackage{graphicx}\n\\graphicspath{{./}}\n\\usepackage{float}\n\\usepackage{array}\n\\usepackage{booktabs}\n\\usepackage[hyphens]{url}\n\\usepackage{hyperref}\n\\usepackage{parskip}\n\\usepackage{microtype}\n\\usepackage[normalem]{ulem}\n\\usepackage{textcomp}\n\\usepackage{amsmath}\n\\usepackage{amssymb}\n"@,
        Template::Ieee => "\\documentclass[conference]{IEEEtran}\n\\usepackage[T1]{fontenc}\n\\usepackage[utf8]{inputenc}\n\\usepackage{graphicx}\n\\graphicspath{{./}}\n\\usepackage{float}\n\\usepackage{array}\n\\usepackage[normalem]{ulem}\n\\usepackage{textcomp}\n\\usepackage{amsmath}\n\\usepackage{amssymb}\n\\usepackage{cite}\n\\usepackage{hyperref}\n"@,
        Template::Thesis => "\\documentclass[12pt,a4paper,oneside]{report}\n\\usepackage[T1]{fontenc}\n\\usepackage[utf8]{inputenc}\n\\usepackage[margin=3cm]{geometry}\n\\usepackage{graphicx}\n\\graphicspath{{./}}\n\\usepackage{float}\n\\usepackage{array}\n\\usepackage{booktabs}\n\\usepackage[hyphens]{url}\n\\usepackage{hyperref}\n\\usepackage{natbib}\n\\usepackage{fancyhdr}\n\\usepackage{microtype}\n\\usepackage[normalem]{ulem}\n\\usepackage{textcomp}\n\\usepackage{amsmath}\n\\usepackage{amssymb}\n\\setlength{\\parindent}{0pt}\n\\setlength{\\parskip}{6pt}\n\\renewcommand{\\listfigurename}{LIST OF FIGURES}\n\\renewcommand{\\listtablename}{LIST OF TABLES}\n"@,
    }
}

/// The preamble: class and packages of the template, line-break relaxation,
/// and (except for the thesis) the title block with the escaped title or
/// "Untitled".
pub open spec fn preamble_text(title: Option<Seq<char>>, template: Template) -> Seq<char> {
    template_packages(template) + "\n"@ + if template == Template::Thesis {
        "\\setlength{\\emergencystretch}{5em}\n\\sloppy\n"@ + "\n"@
    } else {
        "\\setlength{\\emergencystretch}{3em}\n"@ + "\\title{"@ + match title {
            Some(t) => escaped(t),
            None => "Untitled"@,
        } + "}\n"@ + "\\author{}\n"@ + "\\date{\\today}\n"@ + "\n"@
    }
}

pub fn emit_preamble(out: &mut String, title: &Option<String>, template: &Template)
    ensures
        final(out)@ == old(out)@ + preamble_text(crate::model::opt_view(*title), *template),
{
    let ghost start = out@;
    match template {
        Template::Default => out.append("\\documentclass[12pt,a4paper]{article}\n\\usepackage[T1]{fontenc}\n\\usepackage[utf8]{inputenc}\n\\usepackage[margin=2.5cm]{geometry}\n\\usepackage{graphicx}\n\\graphicspath{{./}}\n\\usepackage{float}\n\\usepackage{array}\n\\usepackage{booktabs}\n\\usepackage[hyphens]{url}\n\\usepackage{hyperref}\n\\usepackage{parskip}\n\\usepackage{microtype}\n\\usepackage[normalem]{ulem}\n\\usepackage{textcomp}\n\\usepackage{amsmath}\n\\usepackage{amssymb}\n"),
        Template::Ieee => out.append("\\documentclass[conference]{IEEEtran}\n\\usepackage[T1]{fontenc}\n\\usepackage[utf8]{inputenc}\n\\usepackage{graphicx}\n\\graphicspath{{./}}\n\\usepackage{float}\n\\usepackage{array}\n\\usepackage[normalem]{ulem}\n\\usepackage{textcomp}\n\\usepackage{amsmath}\n\\usepackage{amssymb}\n\\usepackage{cite}\n\\usepackage{hyperref}\n"),
        Template::Thesis => out.append("\\documentclass[12pt,a4paper,oneside]{report}\n\\usepackage[T1]{fontenc}\n\\usepackage[utf8]{inputenc}\n\\usepackage[margin=3cm]{geometry}\n\\usepackage{graphicx}\n\\graphicspath{{./}}\n\\usepackage{float}\n\\usepackage{array}\n\\usepackage{booktabs}\n\\usepackage[hyphens]{url}\n\\usepackage{hyperref}\n\\usepackage{natbib}\n\\usepackage{fancyhdr}\n\\usepackage{microtype}\n\\usepackage[normalem]{ulem}\n\\usepackage{textcomp}\n\\usepackage{amsmath}\n\\usepackage{amssymb}\n\\setlength{\\parindent}{0pt}\n\\setlength{\\parskip}{6pt}\n\\renewcommand{\\listfigurename}{LIST OF FIGURES}\n\\renewcommand{\\listtablename}{LIST OF TABLES}\n"),
    }
    out.append("\n");
    match template {
        Template::Thesis => {
            out.append("\\setlength{\\emergencystretch}{5em}\n\\sloppy\n");
            out.append("\n");
        },
        _ => {
            out.append("\\setlength{\\emergencystretch}{3em}\n");
            out.append("\\title{");
            match title {
                Some(t) => {
                    let e = escape(t.as_str());
                    out.append(e.as_str());
                },
                None => out.append("Untitled"),
            }
            out.append("}\n");
            out.append("\\author{}\n");
            out.append("\\date{\\today}\n");
            out.append("\n");
        },
    }
    assert(out@ =~= start + preamble_text(crate::model::opt_view(*title), *template));
}

// ── Whole document ────────────────────────────────────────────────────────────

/// An element that ends the thesis title page.
pub open spec fn ends_title_page(e: ElementV) -> bool {
    match e {
        ElementV::PageBreak => true,
        ElementV::Heading { .. } => true,
        ElementV::TocBlock => true,
        ElementV::Paragraph { runs } => is_front_matter(trim(runs_text(runs))),
        _ => false,
    }
}

/// Position of the first element from `i` on that ends the title page
/// (the number of elements when none does).
pub open spec fn title_end_from(s: Seq<ElementV>, i: int) -> int
    decreases s.len() - i,
{
    if i < 0 || i >= s.len() {
        s.len() as int
    } else if ends_title_page(s[i]) {
        i
    } else {
        title_end_from(s, i + 1)
    }
}

pub open spec fn widths_at(widths: Seq<Seq<u64>>, i: int) -> Seq<u64> {
    if 0 <= i < widths.len() { widths[i] } else { Seq::empty() }
}

/// The body from element `i` on, each element followed by a blank line.
pub open spec fn body_from(
    s: Seq<ElementV>,
    i: int,
    template: Template,
    seen: bool,
    prev_was_page_break: bool,
    widths: Seq<Seq<u64>>,
) -> Seq<char>
    decreases s.len() - i,
{
    if i < 0 || i >= s.len() {
        Seq::empty()
    } else {
        let r = element_out(s[i], template, seen, prev_was_page_break, widths_at(widths, i));
        r.0 + "\n"@ + body_from(s, i + 1, template, r.1, s[i] is PageBreak, widths)
    }
}

pub open spec fn fancy_setup() -> Seq<char> {
    "\\pagestyle{fancy}\n\\fancyhf{}\n\\fancyhead[L]{\\small\\nouppercase{\\leftmark}}\n\\fancyhead[R]{\\thepage}\n\\fancyfoot[C]{}\n\n"@
}

/// The whole LaTeX source of a document under a template, with the column
/// widths of the table at element position `i` taken from `widths[i]`.
pub open spec fn rendered(doc: crate::model::DocumentV, template: Template, widths: Seq<Seq<u64>>) -> Seq<char> {
    let s = doc.elements;
    preamble_text(doc.title, template) + "\\begin{document}\n\n"@ + if template == Template::Thesis {
        let te = title_end_from(s, 0);
        "\\begin{titlepage}\n  \\centering\n\n"@ + title_page_from(s.take(te), 0, false) + "\\end{titlepage}\n\n"@
            + fancy_setup() + body_from(s, te, template, false, false, widths) + "\\end{document}\n"@
    } else {
        "\\maketitle\n\n"@ + body_from(s, 0, template, false, false, widths) + "\\end{document}\n"@
    }
}

proof fn lemma_body_step(
    s: Seq<ElementV>,
    i: int,
    template: Template,
    seen: bool,
    prev: bool,
    ws: Seq<Seq<u64>>,
)
    requires
        0 <= i < s.len(),
    ensures
        body_from(s, i, template, seen, prev, ws) == ({
            let r = element_out(s[i], template, seen, prev, widths_at(ws, i));
            r.0 + "\n"@ + body_from(s, i + 1, template, r.1, s[i] is PageBreak, ws)
        }),
{
}

#[verifier::spinoff_prover]
#[verifier::rlimit(60)]
fn emit_body(
    out: &mut String,
    elements: &Vec<Element>,
    from: usize,
    template: &Template,
    widths: &Vec<Vec<u64>>,
)
    requires
        from <= elements.len(),
    ensures
        final(out)@ == old(out)@ + body_from(elements.deep_view(), from as int, *template, false, false, widths@.map_values(|w: Vec<u64>| w@)),
{
    let ghost s = elements.deep_view();
    let ghost ws = widths@.map_values(|w: Vec<u64>| w@);
    let ghost start = out@;
    let mut seen = false;
    let mut last_was_page_break = false;
    let empty: Vec<u64> = Vec::new();
    let mut i = from;
    while i < elements.len()
        invariant
            from <= i <= elements.len(),
            s == elements.deep_view(),
            ws == widths@.map_values(|w: Vec<u64>| w@),
            empty@ == Seq::<u64>::empty(),
            start + body_from(s, from as int, *template, false, false, ws) == out@ + body_from(
                s,
                i as int,
                *template,
                seen,
                last_was_page_break,
                ws,
            ),
        decreases elements.len() - i,
    {
        let ghost before = out@;
        let ghost seen0 = seen;
        let ghost prev0 = last_was_page_break;
        proof { lemma_body_step(s, i as int, *template, seen0, prev0, ws); }
        let w = if i < widths.len() { &widths[i] } else { &empty };
        assert(w@ == widths_at(ws, i as int));
        assert(s[i as int] == elements[i as int].deep_view());
        seen = emit_element(out, &elements[i], template, seen, last_was_page_break, w);
        last_was_page_break = matches!(elements[i], Element::PageBreak);
        out.append("\n");
        assert(out@ + body_from(s, i as int + 1, *template, seen, last_was_page_break, ws) =~= before + body_from(
            s,
            i as int,
            *template,
            seen0,
            prev0,
            ws,
        ));
        i += 1;
    }
    assert(out@ =~= start + body_from(s, from as int, *template, false, false, ws));
}

/// Render `doc` into a LaTeX source string using the given `template`.
///
/// `col_widths[i]` holds the column widths, in hundredths of a centimetre,
/// of the table at position `i` of `doc.elements`; a table without an entry
/// gets an empty column specification.
pub fn render(doc: &crate::model::Document, template: &Template, col_widths: &Vec<Vec<u64>>) -> (out: String)
    ensures
        out@ == rendered(doc.deep_view(), *template, col_widths@.map_values(|w: Vec<u64>| w@)),
{
    let ghost ws = col_widths@.map_values(|w: Vec<u64>| w@);
    let mut out = String::new();
    emit_preamble(&mut out, &doc.title, template);
    out.append("\\begin{document}\n\n");
    let ghost s = doc.elements.deep_view();
    if matches!(template, Template::Thesis) {
        let mut title_end = doc.elements.len();
        let mut k: usize = 0;
        while k < doc.elements.len()
            invariant_except_break
                title_end == doc.elements.len(),
            invariant
                k <= doc.elements.len(),
                s == doc.elements.deep_view(),
                title_end_from(s, 0) == title_end_from(s, k as int),
            ensures
                title_end == title_end_from(s, 0),
                title_end <= doc.elements.len(),
            decreases doc.elements.len() - k,
        {
            let el = &doc.elements[k];
            assert(s[k as int] == el.deep_view());
            let ends = match el {
                Element::PageBreak => true,
                Element::Heading { .. } => true,
                Element::TocBlock => true,
                Element::Paragraph { runs } => {
                    let raw = concat_runs(runs);
                    let t = trim_chars(&raw);
                    is_front_matter_heading(&t)
                },
                _ => false,
            };
            if ends {
                title_end = k;
                break;
            }
            k += 1;
        }
        out.append("\\begin{titlepage}\n  \\centering\n\n");
        emit_title_page(&mut out, &doc.elements, title_end);
        out.append("\\end{titlepage}\n\n");
        out.append("\\pagestyle{fancy}\n\\fancyhf{}\n\\fancyhead[L]{\\small\\nouppercase{\\leftmark}}\n\\fancyhead[R]{\\thepage}\n\\fancyfoot[C]{}\n\n");
        emit_body(&mut out, &doc.elements, title_end, template, col_widths);
    } else {
        out.append("\\maketitle\n\n");
        emit_body(&mut out, &doc.elements, 0, template, col_widths);
    }
    out.append("\\end{document}\n");
    assert(out@ =~= rendered(doc.deep_view(), *template, ws));
    out
}


// ── Laws of the whole document ───────────────────────────────────────────────

/// The first line of each template's preamble.
pub open spec fn class_line(template: Template) -> Seq<char> {
    match template {
        Template::Default => "\\documentclass[12pt,a4paper]{article}\n"@,
        Template::Ieee => "\\documentclass[conference]{IEEEtran}\n"@,
        Template::Thesis => "\\documentclass[12pt,a4paper,oneside]{report}\n"@,
    }
}

/// The lines that give the title (escaped, or "Untitled"), author and date.
pub open spec fn title_block(title: Option<Seq<char>>) -> Seq<char> {
    "\\title{"@ + match title {
        Some(t) => escaped(t),
        None => "Untitled"@,
    } + "}\n"@ + "\\author{}\n"@ + "\\date{\\today}\n"@
}

proof fn lemma_packages_start(template: Template)
    ensures
        starts_with(template_packages(template), class_line(template)),
{
    reveal_strlit("\\documentclass[12pt,a4paper]{article}\n");
    reveal_strlit("\\documentclass[conference]{IEEEtran}\n");
    reveal_strlit("\\documentclass[12pt,a4paper,oneside]{report}\n");
    match template {
        Template::Default => {
            reveal_strlit("\\documentclass[12pt,a4paper]{article}\n\\usepackage[T1]{fontenc}\n\\usepackage[utf8]{inputenc}\n\\usepackage[margin=2.5cm]{geometry}\n\\usepackage{graphicx}\n\\graphicspath{{./}}\n\\usepackage{float}\n\\usepackage{array}\n\\usepackage{booktabs}\n\\usepackage[hyphens]{url}\n\\usepackage{hyperref}\n\\usepackage{parskip}\n\\usepackage{microtype}\n\\usepackage[normalem]{ulem}\n\\usepackage{textcomp}\n\\usepackage{amsmath}\n\\usepackage{amssymb}\n");
            assert(template_packages(template).take(class_line(template).len() as int) =~= class_line(template));
        },
        Template::Ieee => {
            reveal_strlit("\\documentclass[conference]{IEEEtran}\n\\usepackage[T1]{fontenc}\n\\usepackage[utf8]{inputenc}\n\\usepackage{graphicx}\n\\graphicspath{{./}}\n\\usepackage{float}\n\\usepackage{array}\n\\usepackage[normalem]{ulem}\n\\usepackage{textcomp}\n\\usepackage{amsmath}\n\\usepackage{amssymb}\n\\usepackage{cite}\n\\usepackage{hyperref}\n");
            assert(template_packages(template).take(class_line(template).len() as int) =~= class_line(template));
        },
        Template::Thesis => {
            reveal_strlit("\\documentclass[12pt,a4paper,oneside]{report}\n\\usepackage[T1]{fontenc}\n\\usepackage[utf8]{inputenc}\n\\usepackage[margin=3cm]{geometry}\n\\usepackage{graphicx}\n\\graphicspath{{./}}\n\\usepackage{float}\n\\usepackage{array}\n\\usepackage{booktabs}\n\\usepackage[hyphens]{url}\n\\usepackage{hyperref}\n\\usepackage{natbib}\n\\usepackage{fancyhdr}\n\\usepackage{microtype}\n\\usepackage[normalem]{ulem}\n\\usepackage{textcomp}\n\\usepackage{amsmath}\n\\usepackage{amssymb}\n\\setlength{\\parindent}{0pt}\n\\setlength{\\parskip}{6pt}\n\\renewcommand{\\listfigurename}{LIST OF FIGURES}\n\\renewcommand{\\listtablename}{LIST OF TABLES}\n");
            assert(template_packages(template).take(class_line(template).len() as int) =~= class_line(template));
        },
    }
}

proof fn lemma_starts_with_concat(a: Seq<char>, b: Seq<char>, p: Seq<char>)
    requires
        starts_with(a, p),
    ensures
        starts_with(a + b, p),
{
    assert((a + b).take(p.len() as int) =~= a.take(p.len() as int));
}

/// Every preamble opens with its template's document class.  Outside the
/// thesis it gives the title block, with the escaped title or "Untitled";
/// the thesis preamble holds no `\title{` at all.
pub proof fn lemma_preamble_title(title: Option<Seq<char>>, template: Template)
    ensures
        starts_with(preamble_text(title, template), class_line(template)),
        template != Template::Thesis ==> contains(preamble_text(title, template), title_block(title)),
        template == Template::Thesis ==> !contains(preamble_text(title, template), "\\title{"@),
{
    let p = preamble_text(title, template);
    lemma_packages_start(template);
    lemma_starts_with_concat(template_packages(template), p.skip(template_packages(template).len() as int), class_line(template));
    assert(template_packages(template) + p.skip(template_packages(template).len() as int) =~= p);
    if template != Template::Thesis {
        let head = template_packages(template) + "\n"@ + "\\setlength{\\emergencystretch}{3em}\n"@;
        let name = match title {
            Some(t) => escaped(t),
            None => "Untitled"@,
        };
        assert(p =~= head + title_block(title) + "\n"@);
        assert(occurs_at(p, title_block(title), head.len() as int)) by {
            assert(p.subrange(head.len() as int, head.len() as int + title_block(title).len() as int) =~= title_block(title));
        }
    } else {
        reveal_strlit("\\documentclass[12pt,a4paper,oneside]{report}\n\\usepackage[T1]{fontenc}\n\\usepackage[utf8]{inputenc}\n\\usepackage[margin=3cm]{geometry}\n\\usepackage{graphicx}\n\\graphicspath{{./}}\n\\usepackage{float}\n\\usepackage{array}\n\\usepackage{booktabs}\n\\usepackage[hyphens]{url}\n\\usepackage{hyperref}\n\\usepackage{natbib}\n\\usepackage{fancyhdr}\n\\usepackage{microtype}\n\\usepackage[normalem]{ulem}\n\\usepackage{textcomp}\n\\usepackage{amsmath}\n\\usepackage{amssymb}\n\\setlength{\\parindent}{0pt}\n\\setlength{\\parskip}{6pt}\n\\renewcommand{\\listfigurename}{LIST OF FIGURES}\n\\renewcommand{\\listtablename}{LIST OF TABLES}\n");
        reveal_strlit("\n");
        reveal_strlit("\\setlength{\\emergencystretch}{5em}\n\\sloppy\n");
        reveal_strlit("\\title{");
        assert(forall|i: int| 0 <= i < p.len() - 1 ==> !(#[trigger] p[i] == '\\' && p[i + 1] == 't'));
        if contains(p, "\\title{"@) {
            let i = choose|i: int| occurs_at(p, "\\title{"@, i);
            assert(p.subrange(i, i + 7)[0] == p[i]);
            assert(p.subrange(i, i + 7)[1] == p[i + 1]);
        }
    }
}

/// Every rendered document starts with its template's document class and
/// ends with `\end{document}`.  Right after `\begin{document}` comes
/// `\maketitle`, except in the thesis, where the title page begins there.
pub proof fn lemma_render_frame(doc: crate::model::DocumentV, template: Template, widths: Seq<Seq<u64>>)
    ensures
        starts_with(rendered(doc, template, widths), class_line(template)),
        ends_with(rendered(doc, template, widths), "\\end{document}\n"@),
        template != Template::Thesis ==> contains(rendered(doc, template, widths), "\\begin{document}\n\n\\maketitle"@),
        template == Template::Thesis ==> occurs_at(
            rendered(doc, template, widths),
            "\\begin{document}\n\n\\begin{titlepage}"@,
            preamble_text(doc.title, template).len() as int,
        ),
{
    let r = rendered(doc, template, widths);
    let pre = preamble_text(doc.title, template);
    let rest = r.skip(pre.len() as int);
    assert(r =~= pre + rest);
    lemma_preamble_title(doc.title, template);
    lemma_starts_with_concat(pre, rest, class_line(template));
    reveal_strlit("\\begin{document}\n\n");
    reveal_strlit("\\maketitle\n\n");
    reveal_strlit("\\begin{titlepage}\n  \\centering\n\n");
    reveal_strlit("\\begin{document}\n\n\\maketitle");
    reveal_strlit("\\begin{document}\n\n\\begin{titlepage}");
    reveal_strlit("\\end{document}\n");
    let s = doc.elements;
    if template == Template::Thesis {
        let te = title_end_from(s, 0);
        let mid = "\\begin{titlepage}\n  \\centering\n\n"@ + title_page_from(s.take(te), 0, false) + "\\end{titlepage}\n\n"@
            + fancy_setup() + body_from(s, te, template, false, false, widths);
        assert(r =~= pre + "\\begin{document}\n\n"@ + mid + "\\end{document}\n"@);
        assert(r.skip(r.len() - 15) =~= "\\end{document}\n"@);
        assert(r.subrange(pre.len() as int, pre.len() as int + 35) =~= "\\begin{document}\n\n\\begin{titlepage}"@);
    } else {
        let mid = "\\maketitle\n\n"@ + body_from(s, 0, template, false, false, widths);
        assert(r =~= pre + "\\begin{document}\n\n"@ + mid + "\\end{document}\n"@);
        assert(r.skip(r.len() - 15) =~= "\\end{document}\n"@);
        assert(occurs_at(r, "\\begin{document}\n\n\\maketitle"@, pre.len() as int)) by {
            assert(r.subrange(pre.len() as int, pre.len() as int + 28) =~= "\\begin{document}\n\n\\maketitle"@);
        }
    }
}

/// Outside the thesis, headings of levels 1 to 4 go to `\section`,
/// `\subsection`, `\subsubsection` and `\paragraph`: level 1 is a section,
/// each of the next two levels is one `sub` deeper than the one above it, and
/// level 4 is a paragraph heading.  In the thesis every level moves up one:
/// level 1 is a chapter, and levels 2 to 4 take the commands that levels 1
/// to 3 take elsewhere.  Distinct levels give distinct commands.
pub proof fn lemma_heading_commands(template: Template)
    ensures
        template != Template::Thesis ==> heading_command_of(1, template) == "section"@,
        template != Template::Thesis ==> heading_command_of(2, template) == "sub"@ + heading_command_of(1, template),
        template != Template::Thesis ==> heading_command_of(3, template) == "sub"@ + heading_command_of(2, template),
        template != Template::Thesis ==> heading_command_of(4, template) == "paragraph"@,
        template == Template::Thesis ==> heading_command_of(1, template) == "chapter"@,
        template == Template::Thesis ==> forall|l: u8| 2 <= l <= 4 ==> heading_command_of(l, template)
            == heading_command_of((l - 1) as u8, Template::Default),
        forall|a: u8, b: u8| 1 <= a < b <= 4 ==> heading_command_of(a, template) != heading_command_of(b, template),
{
    reveal_strlit("section");
    reveal_strlit("subsection");
    reveal_strlit("subsubsection");
    reveal_strlit("paragraph");
    reveal_strlit("chapter");
    reveal_strlit("sub");
    assert("sub"@ + "section"@ =~= "subsection"@);
    assert("sub"@ + "subsection"@ =~= "subsubsection"@);
    assert("section"@.len() != "subsection"@.len());
    assert("section"@.len() != "subsubsection"@.len());
    assert("subsection"@.len() != "subsubsection"@.len());
    assert("paragraph"@[0] != "section"@[0]);
    assert("paragraph"@[0] != "subsection"@[0]);
    assert("paragraph"@[0] != "subsubsection"@[0]);
    assert("chapter"@[0] != "section"@[0]);
    assert("chapter"@[0] != "subsection"@[0]);
    assert("chapter"@[0] != "subsubsection"@[0]);
}

/// A heading element is written with its level's sectioning command around
/// its text: `\<command>{...}` on a line of its own, for every level 1 to 4
/// outside the thesis, and for levels 1, 3 and 4 in the thesis (a level-2
/// thesis heading may become an unnumbered chapter instead).
pub proof fn lemma_heading_element(
    level: u8,
    runs: Seq<RunV>,
    template: Template,
    seen: bool,
    prev_was_page_break: bool,
    widths: Seq<u64>,
)
    requires
        1 <= level <= 4,
        template == Template::Thesis ==> level != 2,
    ensures
        starts_with(
            element_out(ElementV::Heading { level, runs }, template, seen, prev_was_page_break, widths).0,
            "\\"@ + heading_command_of(level, template) + "{"@,
        ),
        ends_with(
            element_out(ElementV::Heading { level, runs }, template, seen, prev_was_page_break, widths).0,
            "}\n"@,
        ),
{
    reveal(element_out);
    let body = fmt_runs(stripped_runs(runs), false, false);
    let out = element_out(ElementV::Heading { level, runs }, template, seen, prev_was_page_break, widths).0;
    let head = "\\"@ + heading_command_of(level, template) + "{"@;
    reveal_strlit("chapter");
    reveal_strlit("section");
    reveal_strlit("subsection");
    reveal_strlit("subsubsection");
    reveal_strlit("\\chapter{");
    reveal_strlit("\\section{");
    reveal_strlit("\\subsection{");
    reveal_strlit("\\subsubsection{");
    reveal_strlit("\\");
    reveal_strlit("{");
    reveal_strlit("}\n");
    assert(out =~= head + body + "}\n"@);
    assert(out.take(head.len() as int) =~= head);
    assert(out.skip(out.len() - 2) =~= "}\n"@);
}

/// A run with no formatting and no link.
pub open spec fn unformatted(r: RunV) -> bool {
    !r.bold && !r.italic && !r.underline && !r.superscript && !r.subscript && !r.mono && r.hyperlink is None
}

/// A run is written as its escaped text, wrapped in the command of its
/// formatting: `\textbf` for bold, `\textit` for italic, `\uline` for
/// underline, `\textsuperscript`, `\textsubscript`, `\texttt` for
/// monospace, and `\href{url}{..}` for a link (the URL escaped for
/// `\href`).  Shown for each property on its own; stripping bold or italic
/// (inside a heading already bold or italic) drops that command.
pub proof fn lemma_run_commands(r: RunV, url: Seq<char>)
    requires
        unformatted(r),
    ensures
        fmt_run(r, false, false) == escaped(r.text),
        fmt_run(RunV { bold: true, ..r }, false, false) == "\\textbf{"@ + escaped(r.text) + "}"@,
        fmt_run(RunV { italic: true, ..r }, false, false) == "\\textit{"@ + escaped(r.text) + "}"@,
        fmt_run(RunV { underline: true, ..r }, false, false) == "\\uline{"@ + escaped(r.text) + "}"@,
        fmt_run(RunV { superscript: true, ..r }, false, false) == "\\textsuperscript{"@ + escaped(r.text) + "}"@,
        fmt_run(RunV { subscript: true, ..r }, false, false) == "\\textsubscript{"@ + escaped(r.text) + "}"@,
        fmt_run(RunV { mono: true, ..r }, false, false) == "\\texttt{"@ + escaped(r.text) + "}"@,
        fmt_run(RunV { hyperlink: Some(url), ..r }, false, false) == "\\href{"@ + url_escaped(url) + "}{"@
            + escaped(r.text) + "}"@,
        fmt_run(RunV { bold: true, ..r }, true, false) == escaped(r.text),
        fmt_run(RunV { italic: true, ..r }, false, true) == escaped(r.text),
{
}

/// Numbered lists are `enumerate` environments and bulleted lists
/// `itemize` environments.
pub proof fn lemma_list_environments()
    ensures
        list_env(true) == "enumerate"@,
        list_env(false) == "itemize"@,
{
}

/// A page break is written as `\clearpage`; outside the thesis a paragraph
/// with runs is written as its runs followed by a blank line, and an empty
/// paragraph as an empty line.
pub proof fn lemma_breaks_and_paragraphs(
    runs: Seq<RunV>,
    template: Template,
    seen: bool,
    prev_was_page_break: bool,
    widths: Seq<u64>,
)
    ensures
        element_out(ElementV::PageBreak, template, seen, prev_was_page_break, widths).0 == "\\clearpage\n"@,
        template != Template::Thesis && runs.len() > 0 ==> element_out(
            ElementV::Paragraph { runs },
            template,
            seen,
            prev_was_page_break,
            widths,
        ).0 == fmt_runs(runs, false, false) + "\n\n"@,
        runs.len() == 0 ==> element_out(ElementV::Paragraph { runs }, template, seen, prev_was_page_break, widths).0
            == "\n"@,
        element_out(ElementV::Paragraph { runs }, template, seen, prev_was_page_break, widths).1 == seen,
        element_out(ElementV::PageBreak, template, seen, prev_was_page_break, widths).1 == seen,
{
    reveal(element_out);
}

/// An image width in EMU (360000 per centimetre) becomes the nearest whole
/// number of hundredths of a centimetre: within half a hundredth, and an
/// exact half rounds up.
pub proof fn lemma_emu_hundredths_nearest(e: u64)
    ensures
        emu_hundredths(e) * 3600 <= e + 1800,
        e + 1800 < emu_hundredths(e) * 3600 + 3600,
{
    let h = emu_hundredths(e);
    assert(h == ((e as nat) + 1800) / 3600);
    assert(h * 3600 <= (e as nat) + 1800 && (e as nat) + 1800 < h * 3600 + 3600) by (nonlinear_arith)
        requires
            h == ((e as nat) + 1800) / 3600,
    ;
}

/// An image pdfLaTeX can include becomes a `figure` float that includes the
/// image's path at its own width in centimetres when that is known and fits
/// the template's text block, else at the line width; one it cannot include
/// becomes a LaTeX comment naming the path, with no `\includegraphics`.
pub proof fn lemma_image_figure(path: Seq<char>, width_emu: Option<u64>, caption: Option<Seq<char>>, template: Template)
    ensures
        !is_unsupported_image(path) ==> starts_with(
            image_text(path, width_emu, caption, template),
            "\\begin{figure}[htbp]\n"@,
        ),
        !is_unsupported_image(path) ==> contains(
            image_text(path, width_emu, caption, template),
            "\\includegraphics[width="@ + image_width_text(width_emu, template) + "]{"@ + path + "}\n"@,
        ),
        !is_unsupported_image(path) ==> ends_with(image_text(path, width_emu, caption, template), "\\end{figure}\n"@),
        is_unsupported_image(path) ==> starts_with(image_text(path, width_emu, caption, template), "% [image skipped: '"@ + path),
        width_emu is None ==> image_width_text(width_emu, template) == "\\linewidth"@,
        width_emu is Some && width_emu->0 > max_width_emu(template) ==> image_width_text(width_emu, template)
            == "\\linewidth"@,
        width_emu is Some && width_emu->0 <= max_width_emu(template) ==> image_width_text(width_emu, template)
            == fixed2(emu_hundredths(width_emu->0)) + "cm"@,
{
    let t = image_text(path, width_emu, caption, template);
    if !is_unsupported_image(path) {
        let a = "\\begin{figure}[htbp]\n"@ + "  \\centering\n"@;
        let inc = "  "@ + ("\\includegraphics[width="@ + image_width_text(width_emu, template) + "]{"@ + path + "}\n"@);
        let target = "\\includegraphics[width="@ + image_width_text(width_emu, template) + "]{"@ + path + "}\n"@;
        let tail = caption_line(caption) + "\\end{figure}\n"@;
        reveal_strlit("  \\includegraphics[width=");
        reveal_strlit("\\includegraphics[width=");
        reveal_strlit("  ");
        assert("  \\includegraphics[width="@ =~= "  "@ + "\\includegraphics[width="@);
        assert(t =~= a + "  "@ + target + tail);
        assert(t.take("\\begin{figure}[htbp]\n"@.len() as int) =~= "\\begin{figure}[htbp]\n"@);
        let i = (a + "  "@).len() as int;
        assert(t.subrange(i, i + target.len()) =~= target);
        assert(crate::text::occurs_at(t, target, i));
        assert(t.skip(t.len() - "\\end{figure}\n"@.len()) =~= "\\end{figure}\n"@);
    } else {
        let p = "% [image skipped: '"@ + path;
        assert(t.take(p.len() as int) =~= p);
    }
}

/// Every template loads `hyperref` (for `\\href`) and `graphicx` (for
/// `\\includegraphics`); the article and the thesis load `booktabs`, whose
/// rules their tables use.
pub proof fn lemma_template_packages(template: Template)
    ensures
        contains(template_packages(template), "\\usepackage{hyperref}\n"@),
        contains(template_packages(template), "\\usepackage{graphicx}\n"@),
        template != Template::Ieee ==> contains(template_packages(template), "\\usepackage{booktabs}\n"@),
{
    reveal_strlit("\\usepackage{hyperref}\n");
    reveal_strlit("\\usepackage{graphicx}\n");
    reveal_strlit("\\usepackage{booktabs}\n");
    let h = "\\usepackage{hyperref}\n"@;
    let g = "\\usepackage{graphicx}\n"@;
    let b = "\\usepackage{booktabs}\n"@;
    let p = template_packages(template);
    match template {
        Template::Default => {
            reveal_strlit("\\documentclass[12pt,a4paper]{article}\n\\usepackage[T1]{fontenc}\n\\usepackage[utf8]{inputenc}\n\\usepackage[margin=2.5cm]{geometry}\n\\usepackage{graphicx}\n\\graphicspath{{./}}\n\\usepackage{float}\n\\usepackage{array}\n\\usepackage{booktabs}\n\\usepackage[hyphens]{url}\n\\usepackage{hyperref}\n\\usepackage{parskip}\n\\usepackage{microtype}\n\\usepackage[normalem]{ulem}\n\\usepackage{textcomp}\n\\usepackage{amsmath}\n\\usepackage{amssymb}\n");
            assert(p.subrange(255, 255 + h.len() as int) =~= h);
            assert(occurs_at(p, h, 255));
            assert(p.subrange(127, 127 + g.len() as int) =~= g);
            assert(occurs_at(p, g, 127));
            assert(p.subrange(207, 207 + b.len() as int) =~= b);
            assert(occurs_at(p, b, 207));
        },
        Template::Ieee => {
            reveal_strlit("\\documentclass[conference]{IEEEtran}\n\\usepackage[T1]{fontenc}\n\\usepackage[utf8]{inputenc}\n\\usepackage{graphicx}\n\\graphicspath{{./}}\n\\usepackage{float}\n\\usepackage{array}\n\\usepackage[normalem]{ulem}\n\\usepackage{textcomp}\n\\usepackage{amsmath}\n\\usepackage{amssymb}\n\\usepackage{cite}\n\\usepackage{hyperref}\n");
            assert(p.subrange(280, 280 + h.len() as int) =~= h);
            assert(occurs_at(p, h, 280));
            assert(p.subrange(90, 90 + g.len() as int) =~= g);
            assert(occurs_at(p, g, 90));
        },
        Template::Thesis => {
            reveal_strlit("\\documentclass[12pt,a4paper,oneside]{report}\n\\usepackage[T1]{fontenc}\n\\usepackage[utf8]{inputenc}\n\\usepackage[margin=3cm]{geometry}\n\\usepackage{graphicx}\n\\graphicspath{{./}}\n\\usepackage{float}\n\\usepackage{array}\n\\usepackage{booktabs}\n\\usepackage[hyphens]{url}\n\\usepackage{hyperref}\n\\usepackage{natbib}\n\\usepackage{fancyhdr}\n\\usepackage{microtype}\n\\usepackage[normalem]{ulem}\n\\usepackage{textcomp}\n\\usepackage{amsmath}\n\\usepackage{amssymb}\n\\setlength{\\parindent}{0pt}\n\\setlength{\\parskip}{6pt}\n\\renewcommand{\\listfigurename}{LIST OF FIGURES}\n\\renewcommand{\\listtablename}{LIST OF TABLES}\n");
            assert(p.subrange(260, 260 + h.len() as int) =~= h);
            assert(occurs_at(p, h, 260));
            assert(p.subrange(132, 132 + g.len() as int) =~= g);
            assert(occurs_at(p, g, 132));
            assert(p.subrange(212, 212 + b.len() as int) =~= b);
            assert(occurs_at(p, b, 212));
        },
    }
}

/// Tables in the article and the thesis are ruled with booktabs
/// (`\\toprule`, `\\midrule` below the header row, `\\bottomrule`); IEEE
/// tables with `\\hline` at each of those places.
pub proof fn lemma_table_rules(template: Template)
    ensures
        template != Template::Ieee ==> top_rule(template) == "    \\toprule\n"@ && mid_rule(template)
            == "    \\midrule\n"@ && bottom_rule(template) == "    \\bottomrule\n"@,
        template == Template::Ieee ==> top_rule(template) == "    \\hline\n"@ && mid_rule(template)
            == "    \\hline\n"@ && bottom_rule(template) == "    \\hline\n"@,
{
}

/// Outside the thesis, the body is every element in order, each followed by
/// a blank line, between `\maketitle` and `\end{document}`: a document of
/// two paragraphs is its preamble, the opening, the first paragraph's runs,
/// the second's, and the closing line.
pub proof fn lemma_render_two_paragraphs(
    title: Option<Seq<char>>,
    a: Seq<RunV>,
    b: Seq<RunV>,
    template: Template,
    widths: Seq<Seq<u64>>,
)
    requires
        template != Template::Thesis,
        a.len() > 0,
        b.len() > 0,
    ensures
        rendered(
            crate::model::DocumentV { title, elements: seq![ElementV::Paragraph { runs: a }, ElementV::Paragraph { runs: b }] },
            template,
            widths,
        ) == preamble_text(title, template) + "\\begin{document}\n\n"@ + "\\maketitle\n\n"@ + fmt_runs(a, false, false)
            + "\n\n"@ + "\n"@ + fmt_runs(b, false, false) + "\n\n"@ + "\n"@ + "\\end{document}\n"@,
{
    let s = seq![ElementV::Paragraph { runs: a }, ElementV::Paragraph { runs: b }];
    lemma_breaks_and_paragraphs(a, template, false, false, widths_at(widths, 0));
    lemma_breaks_and_paragraphs(b, template, false, false, widths_at(widths, 1));
    let b2 = body_from(s, 2, template, false, false, widths);
    assert(b2 == Seq::<char>::empty());
    let b1 = body_from(s, 1, template, false, false, widths);
    assert(b1 == fmt_runs(b, false, false) + "\n\n"@ + "\n"@ + b2);
    let b0 = body_from(s, 0, template, false, false, widths);
    assert(b0 == fmt_runs(a, false, false) + "\n\n"@ + "\n"@ + b1);
    assert(rendered(crate::model::DocumentV { title, elements: s }, template, widths) =~= preamble_text(title, template)
        + "\\begin{document}\n\n"@ + "\\maketitle\n\n"@ + fmt_runs(a, false, false) + "\n\n"@ + "\n"@ + fmt_runs(
        b,
        false,
        false,
    ) + "\n\n"@ + "\n"@ + "\\end{document}\n"@);
}

/// In the thesis a level-1 heading is a numbered chapter and marks that one
/// has been seen; a level-2 heading is an unnumbered chapter listed in the
/// contents when it is front matter (abstract, acknowledgements and the
/// like) or no numbered chapter has been seen yet, and a section otherwise.
pub proof fn lemma_thesis_headings(runs: Seq<RunV>, seen: bool)
    ensures
        heading_out(1, runs, Template::Thesis, seen) == ("\\chapter{"@ + fmt_runs(stripped_runs(runs), false, false)
            + "}\n"@, true),
        ({
            let text = trim(runs_text(stripped_runs(runs)));
            is_front_matter(text) || !seen ==> heading_out(2, runs, Template::Thesis, seen) == (chapter_star(text), seen)
        }),
        ({
            let text = trim(runs_text(stripped_runs(runs)));
            !is_front_matter(text) && seen ==> heading_out(2, runs, Template::Thesis, seen) == ("\\section{"@
                + fmt_runs(stripped_runs(runs), false, false) + "}\n"@, seen)
        }),
        starts_with(chapter_star(trim(runs_text(stripped_runs(runs)))), "\\chapter*{"@),
{
    let text = trim(runs_text(stripped_runs(runs)));
    let c = chapter_star(text);
    assert(c.take("\\chapter*{"@.len() as int) =~= "\\chapter*{"@);
}

} // verus!
