//! AST post-processing normalizer.
//!
//! A series of passes over the element list produced by the reader, run before
//! it is handed to the renderer.  Each pass is a pure function from elements
//! to elements, and each states its result over the elements' views.
//!
//! Pipeline order:
//!   1. `deduplicate_page_breaks`  – collapse consecutive page breaks
//!   2. `detect_toc_block`         – manual dot-leader TOC/LOF/LOT → generated lists
//!   3. `fold_captions`            – caption paragraphs folded into images / tables
//!   4. `promote_bold_headings`    – heuristic bold paragraph → heading
//!   5. `coalesce_runs`            – merge adjacent runs with identical formatting
//!   6. `normalize_whitespace`     – collapse runs of white space
//!   7. `remove_stray_page_numbers`– drop lone 1–3 digit paragraphs
//!   8. `promote_inline_bullets`   – leading bullet character → unordered list
//!   9. `remove_empty_list_items`  – prune blank list items
use vstd::prelude::*;
use crate::model::{
    Element, ElementV, Run, RunV, runs_text, concat_runs, copy_runs, copy_rows, copy_opt_string, opt_view,
    lemma_push_deep_view, lemma_take_next_deep_view,
};
use crate::text::{
    CharClass, trim, trim_start, skip_lead, drop_trail, trail_count, starts_with, ends_with, contains,
    count_matches_from, unicode_lowercase, unicode_uppercase, unicode_alphabetic, unicode_upper, word_count,
    first_word, all_digits, is_dotted_number, dot_count, ascii_lower, is_digit, chars_of, string_of,
    trim_chars, drop_trailing, skip_leading, dotted_groups, ends_with_char, count_words, lowercase_chars,
    uppercase_chars, starts_with_str, first_word_chars, is_alphabetic, is_uppercase, contains_str,
    count_matches, trail_len, slice_of, all_digits_exec, equal_chars, ascii_lowercase, is_ascii_digit,
    push_char, starts_with_chars,
};

verus! {

broadcast use vstd::string::group_string_axioms;

// ── Public entry point ───────────────────────────────────────────────────────

/// The result of running every pass in order.
pub open spec fn normalized(s: Seq<ElementV>) -> Seq<ElementV> {
    let s1 = dedup_breaks(s);
    let s2 = toc_pass(s1, 0);
    let s3 = folded(s2);
    let s4 = promoted(s3);
    let s5 = s4.map_values(|e: ElementV| coalesce_element(e));
    let s6 = s5.map_values(|e: ElementV| whitespace_element(e));
    let s7 = without_stray_numbers(s6);
    let s8 = bullets_from(s7, 0, Seq::empty(), Seq::empty());
    s8.map_values(|e: ElementV| prune_list(e))
}

/// Run all normalisation passes in the correct order.
pub fn normalize(elements: Vec<Element>) -> (out: Vec<Element>)
    ensures
        out.deep_view() == normalized(elements.deep_view()),
{
    let elements = deduplicate_page_breaks(elements);
    let elements = detect_toc_block(elements);
    let elements = fold_captions(elements);
    let elements = promote_bold_headings(elements);
    let elements = coalesce_runs(elements);
    let elements = normalize_whitespace(elements);
    let elements = remove_stray_page_numbers(elements);
    let elements = promote_inline_bullets(elements);
    remove_empty_list_items(elements)
}

// ── Text classification ──────────────────────────────────────────────────────

pub open spec fn all_bold(runs: Seq<RunV>) -> bool {
    forall|i: int| 0 <= i < runs.len() ==> (#[trigger] runs[i]).bold
}

/// Number of alphabetic characters.
pub open spec fn alpha_count(s: Seq<char>) -> nat
    decreases s.len(),
{
    if s.len() == 0 {
        0
    } else {
        alpha_count(s.drop_last()) + if unicode_alphabetic(s.last()) { 1nat } else { 0nat }
    }
}

/// Number of alphabetic characters that are upper case.
pub open spec fn upper_alpha_count(s: Seq<char>) -> nat
    decreases s.len(),
{
    if s.len() == 0 {
        0
    } else {
        upper_alpha_count(s.drop_last()) + if unicode_alphabetic(s.last()) && unicode_upper(s.last()) {
            1nat
        } else {
            0nat
        }
    }
}

/// Heading level implied by a numeric prefix such as `1.`, `1.2` or `1.2.3`.
pub open spec fn numbering_level_of(word: Seq<char>) -> Option<u8> {
    let w = drop_trail(word, CharClass::Exactly('.'));
    if is_dotted_number(w) {
        let groups = dot_count(w) + 1;
        Some(if groups == 1 { 1u8 } else if groups == 2 { 2u8 } else if groups == 3 { 3u8 } else { 4u8 })
    } else {
        None
    }
}

/// The heading level a run sequence is promoted to, or `None` if it stays a
/// paragraph.  All runs must be bold; the trimmed text must be 1–120
/// characters long, must not end with `.`, and must have 1–12 words; then "chapter …"
/// gives level 1, a dotted number gives its depth, and text whose letters are
/// at least 75% capitals gives level 2.
pub open spec fn heading_level(runs: Seq<RunV>) -> Option<u8> {
    let t = trim(runs_text(runs));
    if runs.len() == 0 || !all_bold(runs) {
        None
    } else if t.len() == 0 || t.len() > 120 {
        None
    } else if ends_with(t, seq!['.']) {
        None
    } else if word_count(t) == 0 || word_count(t) > 12 {
        None
    } else if starts_with(unicode_lowercase(t), "chapter"@) {
        Some(1u8)
    } else if numbering_level_of(first_word(t)) is Some {
        numbering_level_of(first_word(t))
    } else if alpha_count(t) > 0 && 4 * upper_alpha_count(t) >= 3 * alpha_count(t) {
        Some(2u8)
    } else {
        None
    }
}

/// Infer a heading level from a numeric prefix like "1.", "1.2", "1.2.3".
pub fn numbering_level(word: &Vec<char>) -> (r: Option<u8>)
    ensures
        r == numbering_level_of(word@),
{
    let w = drop_trailing(word, &CharClass::Exactly('.'));
    match dotted_groups(&w) {
        Some(g) => Some(if g == 1 { 1u8 } else if g == 2 { 2u8 } else if g == 3 { 3u8 } else { 4u8 }),
        None => None,
    }
}

fn all_bold_exec(runs: &Vec<Run>) -> (b: bool)
    ensures
        b == all_bold(runs.deep_view()),
{
    let mut i: usize = 0;
    while i < runs.len()
        invariant
            i <= runs.len(),
            forall|j: int| 0 <= j < i ==> (#[trigger] runs.deep_view()[j]).bold,
        decreases runs.len() - i,
    {
        if !runs[i].bold {
            assert(!runs.deep_view()[i as int].bold);
            return false;
        }
        i += 1;
    }
    true
}

fn letter_counts(t: &Vec<char>) -> (r: (usize, usize))
    ensures
        r.0 == alpha_count(t@),
        r.1 == upper_alpha_count(t@),
{
    let mut alpha: usize = 0;
    let mut upper: usize = 0;
    let mut i: usize = 0;
    while i < t.len()
        invariant
            i <= t.len(),
            alpha == alpha_count(t@.take(i as int)),
            upper == upper_alpha_count(t@.take(i as int)),
            upper <= alpha <= i,
        decreases t.len() - i,
    {
        let c = t[i];
        assert(t@.take(i as int + 1).drop_last() =~= t@.take(i as int));
        if is_alphabetic(c) {
            alpha += 1;
            if is_uppercase(c) {
                upper += 1;
            }
        }
        i += 1;
    }
    assert(t@.take(i as int) =~= t@);
    (alpha, upper)
}

/// Determine what heading level a run set should map to, or `None` if it
/// should remain a plain paragraph.
pub fn detect_heading_level(runs: &Vec<Run>) -> (r: Option<u8>)
    ensures
        r == heading_level(runs.deep_view()),
{
    if runs.len() == 0 {
        return None;
    }
    if !all_bold_exec(runs) {
        return None;
    }
    let raw = concat_runs(runs);
    let t = trim_chars(&raw);
    if t.len() == 0 {
        return None;
    }
    if t.len() > 120 {
        return None;
    }
    if ends_with_char(&t, '.') {
        return None;
    }
    let wc = count_words(&t);
    if wc == 0 || wc > 12 {
        return None;
    }
    let lower = lowercase_chars(&t);
    if starts_with_str(&lower, "chapter") {
        return Some(1);
    }
    let first = first_word_chars(&t);
    let lvl = numbering_level(&first);
    if lvl.is_some() {
        return lvl;
    }
    let (alpha, upper) = letter_counts(&t);
    if alpha > 0 && 4 * (upper as u128) >= 3 * (alpha as u128) {
        return Some(2);
    }
    None
}

// ── Element classification ───────────────────────────────────────────────────

/// The text of a paragraph or heading.
pub open spec fn element_text(e: ElementV) -> Option<Seq<char>> {
    match e {
        ElementV::Paragraph { runs } => Some(runs_text(runs)),
        ElementV::Heading { runs, .. } => Some(runs_text(runs)),
        _ => None,
    }
}

fn element_text_exec(e: &Element) -> (r: Option<Vec<char>>)
    ensures
        match r {
            Some(v) => element_text(e.deep_view()) == Some(v@),
            None => element_text(e.deep_view()) is None,
        },
{
    match e {
        Element::Paragraph { runs } => Some(concat_runs(runs)),
        Element::Heading { runs, .. } => Some(concat_runs(runs)),
        _ => None,
    }
}

/// Every run of the text is white space only.
pub open spec fn runs_blank(runs: Seq<RunV>) -> bool {
    forall|i: int| 0 <= i < runs.len() ==> trim((#[trigger] runs[i]).text).len() == 0
}

fn runs_blank_exec(runs: &Vec<Run>) -> (b: bool)
    ensures
        b == runs_blank(runs.deep_view()),
{
    let mut i: usize = 0;
    while i < runs.len()
        invariant
            i <= runs.len(),
            forall|j: int| 0 <= j < i ==> trim((#[trigger] runs.deep_view()[j]).text).len() == 0,
        decreases runs.len() - i,
    {
        let t = chars_of(runs[i].text.as_str());
        let tt = trim_chars(&t);
        if tt.len() != 0 {
            assert(trim(runs.deep_view()[i as int].text).len() != 0);
            return false;
        }
        i += 1;
    }
    true
}

pub open spec fn is_blank_paragraph(e: ElementV) -> bool {
    match e {
        ElementV::Paragraph { runs } => runs_blank(runs),
        _ => false,
    }
}

fn is_blank_paragraph_exec(e: &Element) -> (b: bool)
    ensures
        b == is_blank_paragraph(e.deep_view()),
{
    match e {
        Element::Paragraph { runs } => runs_blank_exec(runs),
        _ => false,
    }
}

pub open spec fn dot_to_space(c: char) -> char {
    if c == '.' || c == '\u{2026}' { ' ' } else { c }
}

/// The last white-space separated word of a trimmed text.
pub open spec fn last_word(s: Seq<char>) -> Seq<char> {
    s.skip(s.len() - trail_count(s, CharClass::NonWhitespace))
}

/// A manual table-of-contents line: its trimmed text has a dot leader (four
/// dots or an ellipsis) and either a very long leader or a final word of at
/// most three digits once the dots are read as spaces.
pub open spec fn is_toc_entry_text(raw: Seq<char>) -> bool {
    let t = trim(raw);
    let has_dots = contains(t, "...."@) || contains(t, "\u{2026}"@);
    let long_run = contains(t, ".........."@) || contains(t, "\u{2026}\u{2026}\u{2026}\u{2026}"@)
        || count_matches_from(t, "\\ldots"@, 0) >= 5;
    let stripped = trim(t.map_values(|c: char| dot_to_space(c)));
    if !has_dots {
        false
    } else if long_run {
        true
    } else {
        stripped.len() > 0 && all_digits(last_word(stripped)) && last_word(stripped).len() <= 3
    }
}

pub open spec fn is_toc_entry(e: ElementV) -> bool {
    match element_text(e) {
        Some(t) => is_toc_entry_text(t),
        None => false,
    }
}

fn is_toc_entry_exec(e: &Element) -> (b: bool)
    ensures
        b == is_toc_entry(e.deep_view()),
{
    let raw = match element_text_exec(e) {
        Some(v) => v,
        None => return false,
    };
    let t = trim_chars(&raw);
    let has_dots = contains_str(&t, "....") || contains_str(&t, "\u{2026}");
    if !has_dots {
        return false;
    }
    let ldots = chars_of("\\ldots");
    proof {
        reveal_strlit("\\ldots");
    }
    let long_run = contains_str(&t, "..........") || contains_str(&t, "\u{2026}\u{2026}\u{2026}\u{2026}")
        || count_matches(&t, &ldots) >= 5;
    if long_run {
        return true;
    }
    let mut replaced: Vec<char> = Vec::new();
    let mut i: usize = 0;
    while i < t.len()
        invariant
            i <= t.len(),
            replaced@ == t@.take(i as int).map_values(|c: char| dot_to_space(c)),
        decreases t.len() - i,
    {
        let c = t[i];
        replaced.push(if c == '.' || c == '\u{2026}' { ' ' } else { c });
        i += 1;
        assert(replaced@ =~= t@.take(i as int).map_values(|c: char| dot_to_space(c)));
    }
    assert(t@.take(i as int) =~= t@);
    let stripped = trim_chars(&replaced);
    if stripped.len() == 0 {
        return false;
    }
    let n = trail_len(&stripped, stripped.len(), &CharClass::NonWhitespace);
    assert(stripped@.take(stripped@.len() as int) =~= stripped@);
    let last = slice_of(&stripped, stripped.len() - n, stripped.len());
    assert(last@ =~= last_word(stripped@));
    all_digits_exec(&last) && last.len() <= 3
}

/// The trimmed, upper-cased text of a paragraph or heading (empty otherwise).
pub open spec fn element_text_upper(e: ElementV) -> Seq<char> {
    match element_text(e) {
        Some(t) => unicode_uppercase(trim(t)),
        None => Seq::empty(),
    }
}

fn element_text_upper_exec(e: &Element) -> (r: Vec<char>)
    ensures
        r@ == element_text_upper(e.deep_view()),
{
    match element_text_exec(e) {
        Some(raw) => {
            let t = trim_chars(&raw);
            uppercase_chars(&t)
        },
        None => Vec::new(),
    }
}

pub open spec fn is_toc_header(e: ElementV) -> bool {
    contains(element_text_upper(e), "TABLE OF CONTENTS"@) || element_text_upper(e) == "CONTENTS"@
}

pub open spec fn is_lof_header(e: ElementV) -> bool {
    contains(element_text_upper(e), "LIST OF FIGURES"@) || contains(element_text_upper(e), "LIST OF FIGURE"@)
}

pub open spec fn is_lot_header(e: ElementV) -> bool {
    contains(element_text_upper(e), "LIST OF TABLES"@) || contains(element_text_upper(e), "LIST OF TABLE"@)
}

fn is_toc_header_exec(e: &Element) -> (b: bool)
    ensures
        b == is_toc_header(e.deep_view()),
{
    let u = element_text_upper_exec(e);
    let c = chars_of("CONTENTS");
    contains_str(&u, "TABLE OF CONTENTS") || equal_chars(&u, &c)
}

fn is_lof_header_exec(e: &Element) -> (b: bool)
    ensures
        b == is_lof_header(e.deep_view()),
{
    let u = element_text_upper_exec(e);
    contains_str(&u, "LIST OF FIGURES") || contains_str(&u, "LIST OF FIGURE")
}

fn is_lot_header_exec(e: &Element) -> (b: bool)
    ensures
        b == is_lot_header(e.deep_view()),
{
    let u = element_text_upper_exec(e);
    contains_str(&u, "LIST OF TABLES") || contains_str(&u, "LIST OF TABLE")
}

/// A bare "Chapter N" / "Appendix X" title line of a generated TOC.
pub open spec fn is_toc_chapter_title(runs: Seq<RunV>) -> bool {
    let lower = unicode_lowercase(trim(runs_text(runs)));
    starts_with(lower, "chapter "@) || starts_with(lower, "appendix "@)
}

fn is_toc_chapter_title_exec(runs: &Vec<Run>) -> (b: bool)
    ensures
        b == is_toc_chapter_title(runs.deep_view()),
{
    let raw = concat_runs(runs);
    let t = trim_chars(&raw);
    let lower = lowercase_chars(&t);
    starts_with_str(&lower, "chapter ") || starts_with_str(&lower, "appendix ")
}

/// A paragraph of real body content: not blank, not a TOC line, not heading-like.
pub open spec fn is_content_paragraph(e: ElementV) -> bool {
    match e {
        ElementV::Paragraph { runs } => !is_blank_paragraph(e) && !is_toc_entry(e) && heading_level(runs) is None,
        _ => false,
    }
}

fn is_content_paragraph_exec(e: &Element) -> (b: bool)
    ensures
        b == is_content_paragraph(e.deep_view()),
{
    match e {
        Element::Paragraph { runs } => {
            !is_blank_paragraph_exec(e) && !is_toc_entry_exec(e) && detect_heading_level(runs).is_none()
        },
        _ => false,
    }
}

// ── Pass: deduplicate consecutive page breaks ────────────────────────────────

/// The elements with every page break that directly follows another page
/// break removed.
pub open spec fn dedup_breaks(s: Seq<ElementV>) -> Seq<ElementV>
    decreases s.len(),
{
    if s.len() == 0 {
        Seq::empty()
    } else {
        let prev = dedup_breaks(s.drop_last());
        if s.last() is PageBreak && prev.len() > 0 && prev.last() is PageBreak {
            prev
        } else {
            prev.push(s.last())
        }
    }
}

/// Collapse runs of consecutive `PageBreak` elements into a single one.
pub fn deduplicate_page_breaks(elements: Vec<Element>) -> (out: Vec<Element>)
    ensures
        out.deep_view() == dedup_breaks(elements.deep_view()),
{
    let mut out: Vec<Element> = Vec::new();
    let mut last_was_break = false;
    let mut i: usize = 0;
    while i < elements.len()
        invariant
            i <= elements.len(),
            out.deep_view() == dedup_breaks(elements.deep_view().take(i as int)),
            last_was_break == (out.deep_view().len() > 0 && out.deep_view().last() is PageBreak),
        decreases elements.len() - i,
    {
        let ghost t = elements.deep_view().take(i as int + 1);
        proof {
            lemma_take_next_deep_view(elements, i as int);
            assert(t.drop_last() =~= elements.deep_view().take(i as int));
        }
        let is_break = matches!(elements[i], Element::PageBreak);
        if !(is_break && last_was_break) {
            let el = elements[i].copy();
            let ghost before = out;
            out.push(el);
            proof { lemma_push_deep_view(before, out, el); }
            last_was_break = is_break;
        }
        i += 1;
    }
    assert(elements.deep_view().take(i as int) =~= elements.deep_view());
    out
}

// ── Pass: promote bold paragraphs to headings ────────────────────────────────

/// Some element before position `i` is a page break.
pub open spec fn break_before(s: Seq<ElementV>, i: int) -> bool {
    exists|j: int| 0 <= j < i && (#[trigger] s[j]) is PageBreak
}

pub open spec fn unbold(r: RunV) -> RunV {
    RunV { bold: false, ..r }
}

/// What `promote_bold_headings` puts at position `i`.
pub open spec fn promote_at(s: Seq<ElementV>, i: int) -> ElementV {
    match s[i] {
        ElementV::Paragraph { runs } => if break_before(s, i) && heading_level(runs) is Some {
            ElementV::Heading { level: heading_level(runs)->0, runs: runs.map_values(|r: RunV| unbold(r)) }
        } else {
            s[i]
        },
        _ => s[i],
    }
}

pub open spec fn promoted(s: Seq<ElementV>) -> Seq<ElementV> {
    Seq::new(s.len(), |i: int| promote_at(s, i))
}

fn unbold_runs(runs: &Vec<Run>) -> (r: Vec<Run>)
    ensures
        r.deep_view() == runs.deep_view().map_values(|r: RunV| unbold(r)),
{
    let mut out: Vec<Run> = Vec::new();
    let mut i: usize = 0;
    while i < runs.len()
        invariant
            i <= runs.len(),
            out.deep_view() == runs.deep_view().take(i as int).map_values(|r: RunV| unbold(r)),
        decreases runs.len() - i,
    {
        let mut r = runs[i].copy();
        r.bold = false;
        let ghost before = out;
        out.push(r);
        proof {
            lemma_push_deep_view(before, out, r);
            lemma_take_next_deep_view(*runs, i as int);
            assert(out.deep_view() =~= runs.deep_view().take(i as int + 1).map_values(|r: RunV| unbold(r)));
        }
        i += 1;
    }
    assert(runs.deep_view().take(i as int) =~= runs.deep_view());
    out
}

/// Promote paragraphs that look like headings to `Element::Heading`.
///
/// A paragraph qualifies when `detect_heading_level` gives it a level; the
/// bold flag of its runs is cleared because heading commands imply bold.
/// Promotion is suppressed until after the first page break, so that
/// title-page content is never promoted.
pub fn promote_bold_headings(elements: Vec<Element>) -> (out: Vec<Element>)
    ensures
        out.deep_view() == promoted(elements.deep_view()),
{
    let ghost ev = elements.deep_view();
    let mut out: Vec<Element> = Vec::new();
    let mut seen_page_break = false;
    let mut i: usize = 0;
    while i < elements.len()
        invariant
            i <= elements.len(),
            ev == elements.deep_view(),
            out.deep_view() == promoted(ev).take(i as int),
            seen_page_break == break_before(ev, i as int),
        decreases elements.len() - i,
    {
        let el = &elements[i];
        let new_el = match el {
            Element::Paragraph { runs } => {
                if seen_page_break {
                    match detect_heading_level(runs) {
                        Some(level) => Element::Heading { level, runs: unbold_runs(runs) },
                        None => el.copy(),
                    }
                } else {
                    el.copy()
                }
            },
            _ => el.copy(),
        };
        assert(new_el.deep_view() == promote_at(ev, i as int));
        let ghost before = out;
        out.push(new_el);
        proof {
            lemma_push_deep_view(before, out, new_el);
            assert(out.deep_view() =~= promoted(ev).take(i as int + 1));
        }
        if matches!(elements[i], Element::PageBreak) {
            seen_page_break = true;
        }
        assert(seen_page_break == break_before(ev, i as int + 1));
        i += 1;
    }
    assert(promoted(ev).take(i as int) =~= promoted(ev));
    out
}

// ── Pass: coalesce adjacent runs with identical formatting ───────────────────

pub open spec fn same_format(a: RunV, b: RunV) -> bool {
    &&& a.bold == b.bold
    &&& a.italic == b.italic
    &&& a.underline == b.underline
    &&& a.mono == b.mono
    &&& a.superscript == b.superscript
    &&& a.subscript == b.subscript
    &&& a.hyperlink == b.hyperlink
}

/// The runs with each run that has the formatting of the run before it merged
/// into that run.
pub open spec fn merged(rs: Seq<RunV>) -> Seq<RunV>
    decreases rs.len(),
{
    if rs.len() == 0 {
        Seq::empty()
    } else {
        let p = merged(rs.drop_last());
        let r = rs.last();
        if p.len() > 0 && same_format(p.last(), r) {
            p.update(p.len() - 1, RunV { text: p.last().text + r.text, ..p.last() })
        } else {
            p.push(r)
        }
    }
}

fn opt_string_eq(a: &Option<String>, b: &Option<String>) -> (r: bool)
    ensures
        r == (opt_view(*a) == opt_view(*b)),
{
    match (a, b) {
        (Some(x), Some(y)) => { let e = x.eq(y); proof { if e { assert(x@ == y@); } } e },
        (None, None) => true,
        _ => false,
    }
}

/// Merge consecutive runs that share all formatting properties.
pub fn merge_runs(runs: Vec<Run>) -> (out: Vec<Run>)
    ensures
        out.deep_view() == merged(runs.deep_view()),
{
    let mut out: Vec<Run> = Vec::new();
    let mut i: usize = 0;
    while i < runs.len()
        invariant
            i <= runs.len(),
            out.deep_view() == merged(runs.deep_view().take(i as int)),
        decreases runs.len() - i,
    {
        let run = &runs[i];
        proof {
            lemma_take_next_deep_view(runs, i as int);
            assert(runs.deep_view().take(i as int + 1).drop_last() =~= runs.deep_view().take(i as int));
        }
        let n = out.len();
        let mut merged_into_last = false;
        if n > 0 {
            let l = &out[n - 1];
            if l.bold == run.bold && l.italic == run.italic && l.underline == run.underline
                && l.mono == run.mono && l.superscript == run.superscript
                && l.subscript == run.subscript && opt_string_eq(&l.hyperlink, &run.hyperlink) {
                merged_into_last = true;
            }
        }
        if merged_into_last {
            let ghost before = out.deep_view();
            let mut last = out.pop().unwrap();
            last.text.append(run.text.as_str());
            let ghost mid = out;
            out.push(last);
            proof {
                lemma_push_deep_view(mid, out, last);
                assert(mid.deep_view() =~= before.drop_last());
                assert(out.deep_view() =~= before.update(before.len() - 1, RunV { text: before.last().text + run.deep_view().text, ..before.last() }));
            }
        } else {
            let r = run.copy();
            let ghost before = out;
            out.push(r);
            proof { lemma_push_deep_view(before, out, r); }
        }
        i += 1;
    }
    assert(runs.deep_view().take(i as int) =~= runs.deep_view());
    out
}

pub open spec fn merged_items(items: Seq<(u8, Seq<RunV>)>) -> Seq<(u8, Seq<RunV>)> {
    items.map_values(|it: (u8, Seq<RunV>)| (it.0, merged(it.1)))
}

pub open spec fn coalesce_element(e: ElementV) -> ElementV {
    match e {
        ElementV::Paragraph { runs } => ElementV::Paragraph { runs: merged(runs) },
        ElementV::Heading { level, runs } => ElementV::Heading { level, runs: merged(runs) },
        ElementV::List { ordered, items } => ElementV::List { ordered, items: merged_items(items) },
        _ => e,
    }
}

fn merge_items(items: &Vec<(u8, Vec<Run>)>) -> (r: Vec<(u8, Vec<Run>)>)
    ensures
        r.deep_view() == merged_items(items.deep_view()),
{
    let mut out: Vec<(u8, Vec<Run>)> = Vec::new();
    let mut i: usize = 0;
    while i < items.len()
        invariant
            i <= items.len(),
            out.deep_view() == merged_items(items.deep_view().take(i as int)),
        decreases items.len() - i,
    {
        let it = (items[i].0, merge_runs(copy_runs(&items[i].1)));
        let ghost before = out;
        out.push(it);
        proof {
            lemma_push_deep_view(before, out, it);
            lemma_take_next_deep_view(*items, i as int);
            assert(out.deep_view() =~= merged_items(items.deep_view().take(i as int + 1)));
        }
        i += 1;
    }
    assert(items.deep_view().take(i as int) =~= items.deep_view());
    out
}

/// Merge consecutive runs with identical formatting inside every paragraph,
/// heading and list item.
pub fn coalesce_runs(elements: Vec<Element>) -> (out: Vec<Element>)
    ensures
        out.deep_view() == elements.deep_view().map_values(|e: ElementV| coalesce_element(e)),
{
    let mut out: Vec<Element> = Vec::new();
    let mut i: usize = 0;
    while i < elements.len()
        invariant
            i <= elements.len(),
            out.deep_view() == elements.deep_view().take(i as int).map_values(|e: ElementV| coalesce_element(e)),
        decreases elements.len() - i,
    {
        let new_el = match &elements[i] {
            Element::Paragraph { runs } => Element::Paragraph { runs: merge_runs(copy_runs(runs)) },
            Element::Heading { level, runs } => Element::Heading { level: *level, runs: merge_runs(copy_runs(runs)) },
            Element::List { ordered, items } => Element::List { ordered: *ordered, items: merge_items(items) },
            other => other.copy(),
        };
        let ghost before = out;
        out.push(new_el);
        proof {
            lemma_push_deep_view(before, out, new_el);
            lemma_take_next_deep_view(elements, i as int);
            assert(out.deep_view() =~= elements.deep_view().take(i as int + 1).map_values(|e: ElementV| coalesce_element(e)));
        }
        i += 1;
    }
    assert(elements.deep_view().take(i as int) =~= elements.deep_view());
    out
}

// ── Pass: normalize whitespace ───────────────────────────────────────────────

/// ASCII white space: space, tab, line feed, form feed, carriage return.
pub open spec fn is_ascii_space(c: char) -> bool {
    c == ' ' || c == '\t' || c == '\n' || c == '\x0C' || c == '\r'
}

/// What a lone white-space character becomes: a space or tab becomes a
/// space, a line feed, form feed or carriage return stays.
pub open spec fn lone_space(c: char) -> char {
    if c == ' ' || c == '\t' {
        ' '
    } else {
        c
    }
}

/// `s` with every run of two or more ASCII white-space characters replaced
/// by one space, and a lone space or tab by a space.
pub open spec fn collapsed(s: Seq<char>) -> Seq<char>
    decreases s.len(),
{
    if s.len() == 0 {
        Seq::empty()
    } else {
        let p = collapsed(s.drop_last());
        if !is_ascii_space(s.last()) {
            p.push(s.last())
        } else if s.len() > 1 && is_ascii_space(s[s.len() - 2]) {
            p.drop_last().push(' ')
        } else {
            p.push(lone_space(s.last()))
        }
    }
}

/// Replace any run of two or more consecutive ASCII white-space characters
/// with a single space (a lone space or tab becomes a space).
pub fn collapse_spaces(s: &str) -> (out: String)
    ensures
        out@ == collapsed(s@),
{
    let cs = chars_of(s);
    let mut out: Vec<char> = Vec::new();
    let mut prev_space = false;
    let mut i: usize = 0;
    while i < cs.len()
        invariant
            i <= cs.len(),
            cs@ == s@,
            out@ == collapsed(cs@.take(i as int)),
            prev_space == (i > 0 && is_ascii_space(cs@[i - 1])),
            prev_space ==> out@.len() > 0,
        decreases cs.len() - i,
    {
        let ch = cs[i];
        let ghost t = cs@.take(i as int + 1);
        assert(t.drop_last() =~= cs@.take(i as int));
        assert(t.last() == ch);
        if ch == ' ' || ch == '\t' || ch == '\n' || ch == '\x0C' || ch == '\r' {
            if prev_space {
                let last = out.len() - 1;
                out.set(last, ' ');
                assert(t[t.len() - 2] == cs@[i - 1]);
                assert(out@ =~= collapsed(cs@.take(i as int)).drop_last().push(' '));
            } else {
                if ch == ' ' || ch == '\t' {
                    out.push(' ');
                } else {
                    out.push(ch);
                }
                if i > 0 {
                    assert(t[t.len() - 2] == cs@[i - 1]);
                }
            }
            prev_space = true;
        } else {
            out.push(ch);
            prev_space = false;
        }
        i += 1;
    }
    assert(cs@.take(i as int) =~= cs@);
    let n = out.len();
    let r = string_of(&out, 0, n);
    assert(out@.subrange(0, n as int) =~= out@);
    r
}

pub open spec fn fix_run_spaces(r: RunV) -> RunV {
    if r.mono {
        r
    } else {
        RunV { text: collapsed(r.text), ..r }
    }
}

pub open spec fn fix_runs_spaces(rs: Seq<RunV>) -> Seq<RunV> {
    rs.map_values(|r: RunV| fix_run_spaces(r))
}

pub open spec fn whitespace_element(e: ElementV) -> ElementV {
    match e {
        ElementV::Paragraph { runs } => ElementV::Paragraph { runs: fix_runs_spaces(runs) },
        ElementV::Heading { level, runs } => ElementV::Heading { level, runs: fix_runs_spaces(runs) },
        ElementV::List { ordered, items } => ElementV::List {
            ordered,
            items: items.map_values(|it: (u8, Seq<RunV>)| (it.0, fix_runs_spaces(it.1))),
        },
        _ => e,
    }
}

fn fix_runs(runs: &Vec<Run>) -> (r: Vec<Run>)
    ensures
        r.deep_view() == fix_runs_spaces(runs.deep_view()),
{
    let mut out: Vec<Run> = Vec::new();
    let mut i: usize = 0;
    while i < runs.len()
        invariant
            i <= runs.len(),
            out.deep_view() == fix_runs_spaces(runs.deep_view().take(i as int)),
        decreases runs.len() - i,
    {
        let mut r = runs[i].copy();
        if !r.mono {
            r.text = collapse_spaces(runs[i].text.as_str());
        }
        let ghost before = out;
        out.push(r);
        proof {
            lemma_push_deep_view(before, out, r);
            lemma_take_next_deep_view(*runs, i as int);
            assert(out.deep_view() =~= fix_runs_spaces(runs.deep_view().take(i as int + 1)));
        }
        i += 1;
    }
    assert(runs.deep_view().take(i as int) =~= runs.deep_view());
    out
}

fn fix_items(items: &Vec<(u8, Vec<Run>)>) -> (r: Vec<(u8, Vec<Run>)>)
    ensures
        r.deep_view() == items.deep_view().map_values(|it: (u8, Seq<RunV>)| (it.0, fix_runs_spaces(it.1))),
{
    let mut out: Vec<(u8, Vec<Run>)> = Vec::new();
    let mut i: usize = 0;
    while i < items.len()
        invariant
            i <= items.len(),
            out.deep_view() == items.deep_view().take(i as int).map_values(
                |it: (u8, Seq<RunV>)| (it.0, fix_runs_spaces(it.1)),
            ),
        decreases items.len() - i,
    {
        let it = (items[i].0, fix_runs(&items[i].1));
        let ghost before = out;
        out.push(it);
        proof {
            lemma_push_deep_view(before, out, it);
            lemma_take_next_deep_view(*items, i as int);
            assert(out.deep_view() =~= items.deep_view().take(i as int + 1).map_values(
                |it: (u8, Seq<RunV>)| (it.0, fix_runs_spaces(it.1)),
            ));
        }
        i += 1;
    }
    assert(items.deep_view().take(i as int) =~= items.deep_view());
    out
}

/// Collapse runs of consecutive ASCII white space to a single space in every
/// non-monospace run of paragraphs, headings and list items.
pub fn normalize_whitespace(elements: Vec<Element>) -> (out: Vec<Element>)
    ensures
        out.deep_view() == elements.deep_view().map_values(|e: ElementV| whitespace_element(e)),
{
    let mut out: Vec<Element> = Vec::new();
    let mut i: usize = 0;
    while i < elements.len()
        invariant
            i <= elements.len(),
            out.deep_view() == elements.deep_view().take(i as int).map_values(|e: ElementV| whitespace_element(e)),
        decreases elements.len() - i,
    {
        let new_el = match &elements[i] {
            Element::Paragraph { runs } => Element::Paragraph { runs: fix_runs(runs) },
            Element::Heading { level, runs } => Element::Heading { level: *level, runs: fix_runs(runs) },
            Element::List { ordered, items } => Element::List { ordered: *ordered, items: fix_items(items) },
            other => other.copy(),
        };
        let ghost before = out;
        out.push(new_el);
        proof {
            lemma_push_deep_view(before, out, new_el);
            lemma_take_next_deep_view(elements, i as int);
            assert(out.deep_view() =~= elements.deep_view().take(i as int + 1).map_values(|e: ElementV| whitespace_element(e)));
        }
        i += 1;
    }
    assert(elements.deep_view().take(i as int) =~= elements.deep_view());
    out
}

// ── Pass: remove stray page-number paragraphs ────────────────────────────────

/// A paragraph whose trimmed text is 1–3 ASCII digits (a leaked page number).
pub open spec fn is_stray_page_number(e: ElementV) -> bool {
    match e {
        ElementV::Paragraph { runs } => {
            let t = trim(runs_text(runs));
            t.len() > 0 && t.len() <= 3 && all_digits(t)
        },
        _ => false,
    }
}

pub open spec fn without_stray_numbers(s: Seq<ElementV>) -> Seq<ElementV>
    decreases s.len(),
{
    if s.len() == 0 {
        Seq::empty()
    } else if is_stray_page_number(s.last()) {
        without_stray_numbers(s.drop_last())
    } else {
        without_stray_numbers(s.drop_last()).push(s.last())
    }
}

/// Drop paragraphs that contain only 1–3 ASCII digits: page-number field codes
/// that leaked out of Word's footer or cross-reference stream.
pub fn remove_stray_page_numbers(elements: Vec<Element>) -> (out: Vec<Element>)
    ensures
        out.deep_view() == without_stray_numbers(elements.deep_view()),
{
    let mut out: Vec<Element> = Vec::new();
    let mut i: usize = 0;
    while i < elements.len()
        invariant
            i <= elements.len(),
            out.deep_view() == without_stray_numbers(elements.deep_view().take(i as int)),
        decreases elements.len() - i,
    {
        proof {
            lemma_take_next_deep_view(elements, i as int);
            assert(elements.deep_view().take(i as int + 1).drop_last() =~= elements.deep_view().take(i as int));
        }
        let stray = match &elements[i] {
            Element::Paragraph { runs } => {
                let raw = concat_runs(runs);
                let t = trim_chars(&raw);
                t.len() > 0 && t.len() <= 3 && all_digits_exec(&t)
            },
            _ => false,
        };
        if !stray {
            let el = elements[i].copy();
            let ghost before = out;
            out.push(el);
            proof { lemma_push_deep_view(before, out, el); }
        }
        i += 1;
    }
    assert(elements.deep_view().take(i as int) =~= elements.deep_view());
    out
}

// ── Pass: remove empty list items ────────────────────────────────────────────

pub open spec fn nonblank_items(items: Seq<(u8, Seq<RunV>)>) -> Seq<(u8, Seq<RunV>)>
    decreases items.len(),
{
    if items.len() == 0 {
        Seq::empty()
    } else if runs_blank(items.last().1) {
        nonblank_items(items.drop_last())
    } else {
        nonblank_items(items.drop_last()).push(items.last())
    }
}

pub open spec fn prune_list(e: ElementV) -> ElementV {
    match e {
        ElementV::List { ordered, items } => ElementV::List { ordered, items: nonblank_items(items) },
        _ => e,
    }
}

/// Prune list items that contain only whitespace/empty runs.
pub fn remove_empty_list_items(elements: Vec<Element>) -> (out: Vec<Element>)
    ensures
        out.deep_view() == elements.deep_view().map_values(|e: ElementV| prune_list(e)),
{
    let mut out: Vec<Element> = Vec::new();
    let mut i: usize = 0;
    while i < elements.len()
        invariant
            i <= elements.len(),
            out.deep_view() == elements.deep_view().take(i as int).map_values(|e: ElementV| prune_list(e)),
        decreases elements.len() - i,
    {
        let new_el = match &elements[i] {
            Element::List { ordered, items } => {
                let mut kept: Vec<(u8, Vec<Run>)> = Vec::new();
                let mut j: usize = 0;
                while j < items.len()
                    invariant
                        j <= items.len(),
                        kept.deep_view() == nonblank_items(items.deep_view().take(j as int)),
                    decreases items.len() - j,
                {
                    proof {
                        lemma_take_next_deep_view(*items, j as int);
                        assert(items.deep_view().take(j as int + 1).drop_last() =~= items.deep_view().take(j as int));
                    }
                    if !runs_blank_exec(&items[j].1) {
                        let it = (items[j].0, copy_runs(&items[j].1));
                        let ghost before = kept;
                        kept.push(it);
                        proof { lemma_push_deep_view(before, kept, it); }
                    }
                    j += 1;
                }
                assert(items.deep_view().take(j as int) =~= items.deep_view());
                Element::List { ordered: *ordered, items: kept }
            },
            other => other.copy(),
        };
        let ghost before = out;
        out.push(new_el);
        proof {
            lemma_push_deep_view(before, out, new_el);
            lemma_take_next_deep_view(elements, i as int);
            assert(out.deep_view() =~= elements.deep_view().take(i as int + 1).map_values(|e: ElementV| prune_list(e)));
        }
        i += 1;
    }
    assert(elements.deep_view().take(i as int) =~= elements.deep_view());
    out
}

// ── Pass: promote inline bullet characters to list items ─────────────────────

/// The characters Word documents use as typed-in bullets.
pub open spec fn is_bullet_char(c: char) -> bool {
    c == '\u{2022}' || c == '\u{25AA}' || c == '\u{25B8}' || c == '\u{25BA}' || c == '\u{2023}'
}

/// If the first run starts (after white space) with a bullet character, the
/// runs with that character, its repetitions and the white space after them
/// removed from the first run (dropping the first run if nothing remains).
pub open spec fn bullet_item(runs: Seq<RunV>) -> Option<Seq<RunV>> {
    if runs.len() == 0 {
        None
    } else {
        let ft = trim_start(runs[0].text);
        if ft.len() == 0 || !is_bullet_char(ft[0]) {
            None
        } else {
            let rest = trim_start(skip_lead(ft, CharClass::Exactly(ft[0])));
            if rest.len() == 0 {
                Some(runs.drop_first())
            } else {
                Some(runs.update(0, RunV { text: rest, ..runs[0] }))
            }
        }
    }
}

pub open spec fn bullet_of(e: ElementV) -> Option<Seq<RunV>> {
    match e {
        ElementV::Paragraph { runs } => bullet_item(runs),
        _ => None,
    }
}

/// Output of `promote_inline_bullets` for `s[i..]`, given the output so far and
/// the bullet items collected but not yet emitted.
pub open spec fn bullets_from(
    s: Seq<ElementV>,
    i: int,
    out: Seq<ElementV>,
    pending: Seq<(u8, Seq<RunV>)>,
) -> Seq<ElementV>
    decreases s.len() - i,
{
    if i < 0 || i >= s.len() {
        if pending.len() > 0 {
            out.push(ElementV::List { ordered: false, items: pending })
        } else {
            out
        }
    } else {
        match bullet_of(s[i]) {
            Some(item) => bullets_from(s, i + 1, out, pending.push((0u8, item))),
            None => {
                let flushed = if pending.len() > 0 {
                    out.push(ElementV::List { ordered: false, items: pending })
                } else {
                    out
                };
                bullets_from(s, i + 1, flushed.push(s[i]), Seq::empty())
            },
        }
    }
}

/// If the paragraph starts with a bullet character, return the runs with that
/// character stripped.  Otherwise return `None`.
pub fn strip_bullet_prefix(runs: &Vec<Run>) -> (r: Option<Vec<Run>>)
    ensures
        match r {
            Some(v) => bullet_item(runs.deep_view()) == Some(v.deep_view()),
            None => bullet_item(runs.deep_view()) is None,
        },
{
    if runs.len() == 0 {
        return None;
    }
    let t0 = chars_of(runs[0].text.as_str());
    let ft = skip_leading(&t0, &CharClass::Whitespace);
    if ft.len() == 0 {
        return None;
    }
    let c = ft[0];
    if !(c == '\u{2022}' || c == '\u{25AA}' || c == '\u{25B8}' || c == '\u{25BA}' || c == '\u{2023}') {
        return None;
    }
    let after = skip_leading(&ft, &CharClass::Exactly(c));
    let rest = skip_leading(&after, &CharClass::Whitespace);
    let mut new_runs = copy_runs(runs);
    let ghost dv = runs.deep_view();
    if rest.len() == 0 {
        let _ = new_runs.remove(0);
        proof {
            assert(new_runs.deep_view() =~= dv.drop_first());
        }
    } else {
        let mut first = runs[0].copy();
        first.text = string_of(&rest, 0, rest.len());
        assert(rest@.subrange(0, rest@.len() as int) =~= rest@);
        new_runs.set(0, first);
        proof {
            assert(new_runs.deep_view() =~= dv.update(0, RunV { text: rest@, ..dv[0] }));
        }
    }
    Some(new_runs)
}

/// Group consecutive paragraphs that start with a bullet character into
/// unordered `Element::List` blocks (every item at level 0).
pub fn promote_inline_bullets(elements: Vec<Element>) -> (out: Vec<Element>)
    ensures
        out.deep_view() == bullets_from(elements.deep_view(), 0, Seq::empty(), Seq::empty()),
{
    let ghost ev = elements.deep_view();
    let mut out: Vec<Element> = Vec::new();
    let mut pending: Vec<(u8, Vec<Run>)> = Vec::new();
    assert(out.deep_view() =~= Seq::<ElementV>::empty());
    assert(pending.deep_view() =~= Seq::<(u8, Seq<RunV>)>::empty());
    let mut i: usize = 0;
    while i < elements.len()
        invariant
            i <= elements.len(),
            ev == elements.deep_view(),
            bullets_from(ev, 0, Seq::empty(), Seq::empty()) == bullets_from(
                ev,
                i as int,
                out.deep_view(),
                pending.deep_view(),
            ),
        decreases elements.len() - i,
    {
        let item = match &elements[i] {
            Element::Paragraph { runs } => strip_bullet_prefix(runs),
            _ => None,
        };
        match item {
            Some(item_runs) => {
                let it = (0u8, item_runs);
                let ghost before = pending;
                pending.push(it);
                proof { lemma_push_deep_view(before, pending, it); }
            },
            None => {
                if pending.len() > 0 {
                    let items = pending;
                    pending = Vec::new();
                    let list = Element::List { ordered: false, items };
                    let ghost before = out;
                    out.push(list);
                    proof { lemma_push_deep_view(before, out, list); }
                }
                let el = elements[i].copy();
                let ghost before = out;
                out.push(el);
                proof {
                    lemma_push_deep_view(before, out, el);
                    assert(pending.deep_view() =~= Seq::<(u8, Seq<RunV>)>::empty());
                }
            },
        }
        i += 1;
    }
    if pending.len() > 0 {
        let list = Element::List { ordered: false, items: pending };
        let ghost before = out;
        out.push(list);
        proof { lemma_push_deep_view(before, out, list); }
    }
    out
}

// ── Pass: detect manual TOC / LOF / LOT blocks ───────────────────────────────

/// Index of the first element at or after `k` that is neither a blank
/// paragraph nor a page break.
pub open spec fn next_real(s: Seq<ElementV>, k: int) -> Option<int>
    decreases s.len() - k,
{
    if k < 0 || k >= s.len() {
        None
    } else if is_blank_paragraph(s[k]) || s[k] is PageBreak {
        next_real(s, k + 1)
    } else {
        Some(k)
    }
}

/// A paragraph that reads like a heading or a "Chapter N" TOC title.
pub open spec fn heading_like(e: ElementV) -> bool {
    match e {
        ElementV::Paragraph { runs } => is_toc_chapter_title(runs) || heading_level(runs) is Some,
        _ => false,
    }
}

/// The next element after `j` (past blanks and page breaks) is body text.
pub open spec fn followed_by_content(s: Seq<ElementV>, j: int) -> bool {
    match next_real(s, j + 1) {
        Some(k) => is_content_paragraph(s[k]),
        None => false,
    }
}

/// Where the material of a TOC that starts before `j` ends: blank lines, dot
/// leaders, page breaks and heading-like lines not followed by body text are
/// part of it; a LOF/LOT header, a heading followed by body text, or any
/// other element ends it.
pub open spec fn toc_region_end(s: Seq<ElementV>, j: int) -> int
    decreases s.len() - j,
{
    if j < 0 || j >= s.len() {
        j
    } else if is_blank_paragraph(s[j]) || is_toc_entry(s[j]) || s[j] is PageBreak {
        toc_region_end(s, j + 1)
    } else if is_lof_header(s[j]) || is_lot_header(s[j]) {
        j
    } else if heading_like(s[j]) && !followed_by_content(s, j) {
        toc_region_end(s, j + 1)
    } else {
        j
    }
}

/// Where a run of dot-leader entries, blank paragraphs and page breaks that
/// starts at `j` ends.
pub open spec fn entries_end(s: Seq<ElementV>, j: int) -> int
    decreases s.len() - j,
{
    if j < 0 || j >= s.len() {
        j
    } else if is_toc_entry(s[j]) || is_blank_paragraph(s[j]) || s[j] is PageBreak {
        entries_end(s, j + 1)
    } else {
        j
    }
}

pub proof fn lemma_toc_region_end_bounds(s: Seq<ElementV>, j: int)
    requires
        0 <= j,
    ensures
        j <= toc_region_end(s, j),
        j <= s.len() ==> toc_region_end(s, j) <= s.len(),
    decreases s.len() - j,
{
    if j < s.len() {
        lemma_toc_region_end_bounds(s, j + 1);
    }
}

pub proof fn lemma_entries_end_bounds(s: Seq<ElementV>, j: int)
    requires
        0 <= j,
    ensures
        j <= entries_end(s, j),
        j <= s.len() ==> entries_end(s, j) <= s.len(),
    decreases s.len() - j,
{
    if j < s.len() {
        lemma_entries_end_bounds(s, j + 1);
    }
}

/// Output of `detect_toc_block` for `s[i..]`: a TOC header and its material
/// become one `TocBlock`, a LOF (LOT) header and its entries one `LofBlock`
/// (`LotBlock`); every other element is kept.
pub open spec fn toc_pass(s: Seq<ElementV>, i: int) -> Seq<ElementV>
    decreases s.len() - i,
    via toc_pass_decreases
{
    if i < 0 || i >= s.len() {
        Seq::empty()
    } else if is_toc_header(s[i]) {
        seq![ElementV::TocBlock] + toc_pass(s, toc_region_end(s, i + 1))
    } else if is_lof_header(s[i]) {
        seq![ElementV::LofBlock] + toc_pass(s, entries_end(s, i + 1))
    } else if is_lot_header(s[i]) {
        seq![ElementV::LotBlock] + toc_pass(s, entries_end(s, i + 1))
    } else {
        seq![s[i]] + toc_pass(s, i + 1)
    }
}

#[via_fn]
proof fn toc_pass_decreases(s: Seq<ElementV>, i: int) {
    if 0 <= i < s.len() {
        lemma_toc_region_end_bounds(s, i + 1);
        lemma_entries_end_bounds(s, i + 1);
    }
}

/// Skip over blank paragraphs and page breaks; the index of the next element
/// that is neither, or `None` if the elements are exhausted.
fn next_real_element(start: usize, elements: &Vec<Element>) -> (r: Option<usize>)
    ensures
        match r {
            Some(k) => next_real(elements.deep_view(), start as int) == Some(k as int) && k < elements.len(),
            None => next_real(elements.deep_view(), start as int) is None,
        },
{
    let mut k = start;
    while k < elements.len()
        invariant
            start <= k,
            next_real(elements.deep_view(), start as int) == next_real(elements.deep_view(), k as int),
        decreases elements.len() - k,
    {
        let el = &elements[k];
        if is_blank_paragraph_exec(el) || matches!(el, Element::PageBreak) {
            k += 1;
        } else {
            return Some(k);
        }
    }
    None
}

fn is_entry_like(el: &Element) -> (b: bool)
    ensures
        b == (is_toc_entry(el.deep_view()) || is_blank_paragraph(el.deep_view()) || el.deep_view() is PageBreak),
{
    is_toc_entry_exec(el) || is_blank_paragraph_exec(el) || matches!(el, Element::PageBreak)
}

/// Replace clusters of manual dot-leader TOC paragraphs with `Element::TocBlock`
/// (and manual LOF/LOT clusters with `LofBlock`/`LotBlock`).
///
/// A "TABLE OF CONTENTS" header and the TOC material after it become one
/// `TocBlock`; dot-leader lines without such a header are kept as they are.
pub fn detect_toc_block(elements: Vec<Element>) -> (out: Vec<Element>)
    ensures
        out.deep_view() == toc_pass(elements.deep_view(), 0),
{
    let ghost ev = elements.deep_view();
    let n = elements.len();
    let mut out: Vec<Element> = Vec::new();
    let mut i: usize = 0;
    assert(out.deep_view() =~= Seq::<ElementV>::empty());
    while i < n
        invariant
            i <= n == elements.len(),
            ev == elements.deep_view(),
            toc_pass(ev, 0) == out.deep_view() + toc_pass(ev, i as int),
        decreases n - i,
    {
        let ghost before = out;
        if is_toc_header_exec(&elements[i]) {
            out.push(Element::TocBlock);
            proof { lemma_push_deep_view(before, out, Element::TocBlock); }
            let mut j = i + 1;
            while j < n
                invariant
                    i + 1 <= j <= n == elements.len(),
                    ev == elements.deep_view(),
                    toc_region_end(ev, i as int + 1) == toc_region_end(ev, j as int),
                ensures
                    i + 1 <= j <= n,
                    toc_region_end(ev, i as int + 1) == j,
                decreases n - j,
            {
                let el = &elements[j];
                if is_blank_paragraph_exec(el) || is_toc_entry_exec(el) || matches!(el, Element::PageBreak) {
                    j += 1;
                    continue;
                }
                if is_lof_header_exec(el) || is_lot_header_exec(el) {
                    break;
                }
                let heading_like = match el {
                    Element::Paragraph { runs } => is_toc_chapter_title_exec(runs) || detect_heading_level(runs).is_some(),
                    _ => false,
                };
                if heading_like {
                    let next_idx = next_real_element(j + 1, &elements);
                    let followed_by_content = match next_idx {
                        Some(k) => is_content_paragraph_exec(&elements[k]),
                        None => false,
                    };
                    if followed_by_content {
                        break;
                    } else {
                        j += 1;
                        continue;
                    }
                }
                break;
            }
            proof {
                assert(out.deep_view() + toc_pass(ev, j as int) =~= before.deep_view() + toc_pass(ev, i as int));
            }
            i = j;
        } else if is_lof_header_exec(&elements[i]) {
            out.push(Element::LofBlock);
            proof { lemma_push_deep_view(before, out, Element::LofBlock); }
            let mut j = i + 1;
            while j < n && is_entry_like(&elements[j])
                invariant
                    i + 1 <= j <= n == elements.len(),
                    ev == elements.deep_view(),
                    entries_end(ev, i as int + 1) == entries_end(ev, j as int),
                decreases n - j,
            {
                j += 1;
            }
            proof {
                assert(out.deep_view() + toc_pass(ev, j as int) =~= before.deep_view() + toc_pass(ev, i as int));
            }
            i = j;
        } else if is_lot_header_exec(&elements[i]) {
            out.push(Element::LotBlock);
            proof { lemma_push_deep_view(before, out, Element::LotBlock); }
            let mut j = i + 1;
            while j < n && is_entry_like(&elements[j])
                invariant
                    i + 1 <= j <= n == elements.len(),
                    ev == elements.deep_view(),
                    entries_end(ev, i as int + 1) == entries_end(ev, j as int),
                decreases n - j,
            {
                j += 1;
            }
            proof {
                assert(out.deep_view() + toc_pass(ev, j as int) =~= before.deep_view() + toc_pass(ev, i as int));
            }
            i = j;
        } else {
            let el = elements[i].copy();
            out.push(el);
            proof {
                lemma_push_deep_view(before, out, el);
                assert(out.deep_view() + toc_pass(ev, i as int + 1) =~= before.deep_view() + toc_pass(ev, i as int));
            }
            i += 1;
        }
    }
    assert(out.deep_view() + toc_pass(ev, i as int) =~= out.deep_view());
    out
}

// ── Pass: fold caption paragraphs into images and tables ─────────────────────

/// The text after a leading "table" / "tab." label, if `lower` starts with one.
pub open spec fn after_table_word(lower: Seq<char>, t: Seq<char>) -> Option<Seq<char>> {
    if starts_with(lower, "table"@) {
        Some(t.skip("table"@.len() as int))
    } else if starts_with(lower, "tab."@) {
        Some(t.skip("tab."@.len() as int))
    } else {
        None
    }
}

/// The text after a leading "figure" / "fig." / "plate" label, if `lower` starts with one.
pub open spec fn after_figure_word(lower: Seq<char>, t: Seq<char>) -> Option<Seq<char>> {
    if starts_with(lower, "figure"@) {
        Some(t.skip("figure"@.len() as int))
    } else if starts_with(lower, "fig."@) {
        Some(t.skip("fig."@.len() as int))
    } else if starts_with(lower, "plate"@) {
        Some(t.skip("plate"@.len() as int))
    } else {
        None
    }
}

pub open spec fn starts_with_digit(s: Seq<char>) -> bool {
    s.len() > 0 && is_digit(s[0])
}

/// "Table 3:", "TABLE 3.1:", "Tab. 3 —": the label word (any ASCII case)
/// followed, after optional white space, by a digit.
pub open spec fn looks_like_table_caption(t: Seq<char>) -> bool {
    match after_table_word(ascii_lower(t), ascii_lower(t)) {
        Some(rest) => starts_with_digit(trim_start(rest)),
        None => false,
    }
}

/// "Figure 5:", "Fig. 2:", "Plate 1 —".
pub open spec fn looks_like_figure_caption(t: Seq<char>) -> bool {
    match after_figure_word(ascii_lower(t), ascii_lower(t)) {
        Some(rest) => starts_with_digit(trim_start(rest)),
        None => false,
    }
}

/// A caption without its "Table N:" label (the whole text if nothing is left).
pub open spec fn extract_table_caption(t: Seq<char>) -> Seq<char> {
    match after_table_word(ascii_lower(t), t) {
        Some(after_word) => {
            let after_num = skip_lead(trim_start(after_word), CharClass::DigitOrDot);
            let after_sep = skip_lead(after_num, CharClass::Separator);
            if after_sep.len() == 0 { t } else { after_sep }
        },
        None => t,
    }
}

/// A caption without its "Figure N:" label (the whole text if nothing is left).
pub open spec fn extract_figure_caption(t: Seq<char>) -> Seq<char> {
    match after_figure_word(ascii_lower(t), t) {
        Some(after_word) => {
            let after_num = skip_lead(trim_start(after_word), CharClass::DigitDotOrDash);
            let after_sep = skip_lead(after_num, CharClass::Separator);
            if after_sep.len() == 0 { t } else { after_sep }
        },
        None => t,
    }
}

fn after_word_table(t: &Vec<char>, lower: &Vec<char>) -> (r: Option<Vec<char>>)
    requires
        lower@.len() == t@.len(),
    ensures
        match r {
            Some(v) => after_table_word(lower@, t@) == Some(v@),
            None => after_table_word(lower@, t@) is None,
        },
{
    let w0 = chars_of("table");
    if starts_with_chars(lower, &w0) {
        let v = slice_of(t, w0.len(), t.len());
        assert(v@ =~= t@.skip(w0@.len() as int));
        return Some(v);
    }
    let w1 = chars_of("tab.");
    if starts_with_chars(lower, &w1) {
        let v = slice_of(t, w1.len(), t.len());
        assert(v@ =~= t@.skip(w1@.len() as int));
        return Some(v);
    }
    None
}

fn after_word_figure(t: &Vec<char>, lower: &Vec<char>) -> (r: Option<Vec<char>>)
    requires
        lower@.len() == t@.len(),
    ensures
        match r {
            Some(v) => after_figure_word(lower@, t@) == Some(v@),
            None => after_figure_word(lower@, t@) is None,
        },
{
    let w0 = chars_of("figure");
    if starts_with_chars(lower, &w0) {
        let v = slice_of(t, w0.len(), t.len());
        assert(v@ =~= t@.skip(w0@.len() as int));
        return Some(v);
    }
    let w1 = chars_of("fig.");
    if starts_with_chars(lower, &w1) {
        let v = slice_of(t, w1.len(), t.len());
        assert(v@ =~= t@.skip(w1@.len() as int));
        return Some(v);
    }
    let w2 = chars_of("plate");
    if starts_with_chars(lower, &w2) {
        let v = slice_of(t, w2.len(), t.len());
        assert(v@ =~= t@.skip(w2@.len() as int));
        return Some(v);
    }
    None
}

fn digit_first(v: &Vec<char>) -> (b: bool)
    ensures
        b == starts_with_digit(v@),
{
    v.len() > 0 && is_ascii_digit(v[0])
}

/// Return `true` when `text` looks like a table caption label.
pub fn looks_like_table_caption_exec(t: &Vec<char>) -> (b: bool)
    ensures
        b == looks_like_table_caption(t@),
{
    let lower = ascii_lowercase(t);
    match after_word_table(&lower, &lower) {
        Some(rest) => {
            let r = skip_leading(&rest, &CharClass::Whitespace);
            digit_first(&r)
        },
        None => false,
    }
}

/// Return `true` when `text` looks like a figure caption label.
pub fn looks_like_figure_caption_exec(t: &Vec<char>) -> (b: bool)
    ensures
        b == looks_like_figure_caption(t@),
{
    let lower = ascii_lowercase(t);
    match after_word_figure(&lower, &lower) {
        Some(rest) => {
            let r = skip_leading(&rest, &CharClass::Whitespace);
            digit_first(&r)
        },
        None => false,
    }
}

/// Strip the leading "Table N:" / "Table N." label from a table caption.
pub fn extract_table_caption_exec(t: &Vec<char>) -> (r: Vec<char>)
    ensures
        r@ == extract_table_caption(t@),
{
    let lower = ascii_lowercase(t);
    match after_word_table(t, &lower) {
        Some(after_word) => {
            let after_ws = skip_leading(&after_word, &CharClass::Whitespace);
            let after_num = skip_leading(&after_ws, &CharClass::DigitOrDot);
            let after_sep = skip_leading(&after_num, &CharClass::Separator);
            if after_sep.len() == 0 { slice_of(t, 0, t.len()) } else { after_sep }
        },
        None => slice_of(t, 0, t.len()),
    }
}

/// Strip the leading "Figure N:" / "Fig. N:" label from a figure caption.
pub fn extract_figure_caption_exec(t: &Vec<char>) -> (r: Vec<char>)
    ensures
        r@ == extract_figure_caption(t@),
{
    let lower = ascii_lowercase(t);
    match after_word_figure(t, &lower) {
        Some(after_word) => {
            let after_ws = skip_leading(&after_word, &CharClass::Whitespace);
            let after_num = skip_leading(&after_ws, &CharClass::DigitDotOrDash);
            let after_sep = skip_leading(&after_num, &CharClass::Separator);
            if after_sep.len() == 0 { slice_of(t, 0, t.len()) } else { after_sep }
        },
        None => slice_of(t, 0, t.len()),
    }
}

/// Backwards scan from `j` for a table caption: consumed elements and blank
/// paragraphs are skipped, up to two other paragraphs are passed over, and any
/// non-paragraph ends the scan.
pub open spec fn scan_back(s: Seq<ElementV>, consumed: Seq<bool>, j: int, skipped: nat) -> Option<(int, Seq<char>)>
    decreases j + 1,
{
    if j < 0 || j >= s.len() {
        None
    } else if consumed[j] {
        scan_back(s, consumed, j - 1, skipped)
    } else {
        match s[j] {
            ElementV::Paragraph { runs } => {
                let t = trim(runs_text(runs));
                if t.len() == 0 {
                    scan_back(s, consumed, j - 1, skipped)
                } else if looks_like_table_caption(t) {
                    Some((j, extract_table_caption(t)))
                } else if skipped + 1 >= 3 {
                    None
                } else {
                    scan_back(s, consumed, j - 1, skipped + 1)
                }
            },
            _ => None,
        }
    }
}

/// Forward scan from `j` for a figure caption: up to four blank paragraphs are
/// passed over; anything else that is not a caption ends the scan.
pub open spec fn scan_fwd(s: Seq<ElementV>, j: int, blanks: nat) -> Option<(int, Seq<char>)>
    decreases s.len() - j,
{
    if j < 0 || j >= s.len() {
        None
    } else {
        match s[j] {
            ElementV::Paragraph { runs } => {
                let t = trim(runs_text(runs));
                if t.len() == 0 {
                    if blanks + 1 > 4 {
                        None
                    } else {
                        scan_fwd(s, j + 1, blanks + 1)
                    }
                } else if looks_like_figure_caption(t) {
                    Some((j, extract_figure_caption(t)))
                } else {
                    None
                }
            },
            _ => None,
        }
    }
}

/// What the first pass of `fold_captions` has found so far: the consumed
/// positions and the captions found for tables and images, by position.
pub struct CaptionScan {
    pub consumed: Seq<bool>,
    pub table_caps: Seq<Option<Seq<char>>>,
    pub image_caps: Seq<Option<Seq<char>>>,
}

pub open spec fn caption_step(s: Seq<ElementV>, st: CaptionScan, i: int) -> CaptionScan {
    match s[i] {
        ElementV::Table { .. } => if i == 0 {
            st
        } else {
            match scan_back(s, st.consumed, i - 1, 0) {
                Some((j, cap)) => CaptionScan {
                    consumed: st.consumed.update(j, true),
                    table_caps: st.table_caps.update(i, Some(cap)),
                    image_caps: st.image_caps,
                },
                None => st,
            }
        },
        ElementV::Image { .. } => match scan_fwd(s, i + 1, 0) {
            Some((j, cap)) => CaptionScan {
                consumed: Seq::new(st.consumed.len(), |k: int| st.consumed[k] || (i < k && k <= j)),
                table_caps: st.table_caps,
                image_caps: st.image_caps.update(i, Some(cap)),
            },
            None => st,
        },
        _ => st,
    }
}

pub open spec fn caption_scan(s: Seq<ElementV>, i: int, st: CaptionScan) -> CaptionScan
    decreases s.len() - i,
{
    if i < 0 || i >= s.len() {
        st
    } else {
        caption_scan(s, i + 1, caption_step(s, st, i))
    }
}

pub open spec fn no_captions(n: nat) -> CaptionScan {
    CaptionScan {
        consumed: Seq::new(n, |k: int| false),
        table_caps: Seq::new(n, |k: int| None),
        image_caps: Seq::new(n, |k: int| None),
    }
}

pub open spec fn with_caption(e: ElementV, st: CaptionScan, i: int) -> ElementV {
    match e {
        ElementV::Table { rows, .. } => ElementV::Table { rows, caption: st.table_caps[i] },
        ElementV::Image { path, width_emu, .. } => ElementV::Image { path, width_emu, caption: st.image_caps[i] },
        _ => e,
    }
}

/// Second pass: drop consumed positions, give tables and images their captions.
pub open spec fn caption_emit(s: Seq<ElementV>, st: CaptionScan, i: int) -> Seq<ElementV>
    decreases s.len() - i,
{
    if i < 0 || i >= s.len() {
        Seq::empty()
    } else if st.consumed[i] {
        caption_emit(s, st, i + 1)
    } else {
        seq![with_caption(s[i], st, i)] + caption_emit(s, st, i + 1)
    }
}

pub open spec fn folded(s: Seq<ElementV>) -> Seq<ElementV> {
    caption_emit(s, caption_scan(s, 0, no_captions(s.len())), 0)
}

fn trimmed_paragraph_text(e: &Element) -> (r: Option<Vec<char>>)
    ensures
        match r {
            Some(t) => e.deep_view() is Paragraph && t@ == trim(runs_text(e.deep_view()->Paragraph_runs)),
            None => !(e.deep_view() is Paragraph),
        },
{
    match e {
        Element::Paragraph { runs } => {
            let raw = concat_runs(runs);
            Some(trim_chars(&raw))
        },
        _ => None,
    }
}

fn scan_back_exec(elements: &Vec<Element>, consumed: &Vec<bool>, i: usize) -> (r: Option<(usize, Vec<char>)>)
    requires
        1 <= i <= elements.len(),
        consumed.len() == elements.len(),
    ensures
        match r {
            Some((j, cap)) => scan_back(elements.deep_view(), consumed@, i - 1, 0) == Some((j as int, cap@)) && j < i,
            None => scan_back(elements.deep_view(), consumed@, i - 1, 0) is None,
        },
{
    let ghost ev = elements.deep_view();
    let mut k = i;
    let mut skipped: usize = 0;
    while k > 0
        invariant
            k <= i <= elements.len(),
            consumed.len() == elements.len(),
            ev == elements.deep_view(),
            skipped < 3,
            scan_back(ev, consumed@, i - 1, 0) == scan_back(ev, consumed@, k - 1, skipped as nat),
        decreases k,
    {
        let j = k - 1;
        if consumed[j] {
            k = j;
            continue;
        }
        match trimmed_paragraph_text(&elements[j]) {
            Some(t) => {
                if t.len() == 0 {
                    k = j;
                    continue;
                }
                if looks_like_table_caption_exec(&t) {
                    return Some((j, extract_table_caption_exec(&t)));
                }
                if skipped + 1 >= 3 {
                    return None;
                }
                skipped += 1;
                k = j;
            },
            None => {
                return None;
            },
        }
    }
    None
}

fn scan_fwd_exec(elements: &Vec<Element>, i: usize) -> (r: Option<(usize, Vec<char>)>)
    requires
        i < elements.len(),
    ensures
        match r {
            Some((j, cap)) => scan_fwd(elements.deep_view(), i + 1, 0) == Some((j as int, cap@)) && i < j < elements.len(),
            None => scan_fwd(elements.deep_view(), i + 1, 0) is None,
        },
{
    let ghost ev = elements.deep_view();
    let mut j = i + 1;
    let mut blanks: usize = 0;
    while j < elements.len()
        invariant
            i < j,
            blanks <= 4,
            ev == elements.deep_view(),
            scan_fwd(ev, i + 1, 0) == scan_fwd(ev, j as int, blanks as nat),
        decreases elements.len() - j,
    {
        match trimmed_paragraph_text(&elements[j]) {
            Some(t) => {
                if t.len() == 0 {
                    if blanks + 1 > 4 {
                        return None;
                    }
                    blanks += 1;
                    j += 1;
                    continue;
                }
                if looks_like_figure_caption_exec(&t) {
                    return Some((j, extract_figure_caption_exec(&t)));
                }
                return None;
            },
            None => {
                return None;
            },
        }
    }
    None
}

fn string_from_chars(v: &Vec<char>) -> (s: String)
    ensures
        s@ == v@,
{
    let s = string_of(v, 0, v.len());
    assert(v@.subrange(0, v@.len() as int) =~= v@);
    s
}

/// Fold caption paragraphs into the Image / Table elements they describe.
///
/// A paragraph starting with "Figure N", "Fig. N" or "Plate N" that follows an
/// image (with at most four blank paragraphs between) becomes the image's
/// caption, and the paragraphs up to it are removed; an image without such a
/// paragraph loses its alt-text caption.  A paragraph starting with "Table N"
/// or "Tab. N" before a table (skipping blank paragraphs and at most two
/// other paragraphs) becomes the table's caption and is removed.
pub fn fold_captions(elements: Vec<Element>) -> (out: Vec<Element>)
    ensures
        out.deep_view() == folded(elements.deep_view()),
{
    let ghost ev = elements.deep_view();
    let n = elements.len();
    let mut consumed: Vec<bool> = Vec::new();
    let mut table_cap: Vec<Option<String>> = Vec::new();
    let mut image_cap: Vec<Option<String>> = Vec::new();
    let mut k: usize = 0;
    while k < n
        invariant
            k <= n,
            consumed@ == Seq::new(k as nat, |x: int| false),
            table_cap.deep_view() == Seq::new(k as nat, |x: int| None::<Seq<char>>),
            image_cap.deep_view() == Seq::new(k as nat, |x: int| None::<Seq<char>>),
        decreases n - k,
    {
        consumed.push(false);
        let ghost b1 = table_cap;
        table_cap.push(None);
        proof { lemma_push_deep_view(b1, table_cap, None::<String>); }
        let ghost b2 = image_cap;
        image_cap.push(None);
        proof { lemma_push_deep_view(b2, image_cap, None::<String>); }
        k += 1;
        assert(consumed@ =~= Seq::new(k as nat, |x: int| false));
        assert(table_cap.deep_view() =~= Seq::new(k as nat, |x: int| None::<Seq<char>>));
        assert(image_cap.deep_view() =~= Seq::new(k as nat, |x: int| None::<Seq<char>>));
    }
    let ghost init = CaptionScan { consumed: consumed@, table_caps: table_cap.deep_view(), image_caps: image_cap.deep_view() };
    assert(init == no_captions(ev.len()));
    let mut i: usize = 0;
    while i < n
        invariant
            i <= n == elements.len(),
            ev == elements.deep_view(),
            consumed.len() == n,
            table_cap.len() == n,
            image_cap.len() == n,
            caption_scan(ev, 0, no_captions(ev.len())) == caption_scan(
                ev,
                i as int,
                CaptionScan { consumed: consumed@, table_caps: table_cap.deep_view(), image_caps: image_cap.deep_view() },
            ),
        decreases n - i,
    {
        let ghost st = CaptionScan { consumed: consumed@, table_caps: table_cap.deep_view(), image_caps: image_cap.deep_view() };
        match &elements[i] {
            Element::Table { .. } => {
                if i > 0 {
                    match scan_back_exec(&elements, &consumed, i) {
                        Some((j, cap)) => {
                            let ghost tb = table_cap;
                            table_cap.set(i, Some(string_from_chars(&cap)));
                            consumed.set(j, true);
                            proof {
                                assert(table_cap.deep_view() =~= tb.deep_view().update(i as int, Some(cap@)));
                            }
                        },
                        None => {},
                    }
                }
            },
            Element::Image { .. } => {
                match scan_fwd_exec(&elements, i) {
                    Some((j, cap)) => {
                        let ghost ib = image_cap;
                        image_cap.set(i, Some(string_from_chars(&cap)));
                        proof {
                            assert(image_cap.deep_view() =~= ib.deep_view().update(i as int, Some(cap@)));
                        }
                        let ghost c0 = consumed@;
                        let mut m = i + 1;
                        while m <= j
                            invariant
                                i < m <= j + 1,
                                j < n,
                                consumed.len() == n,
                                c0.len() == n,
                                consumed@ == Seq::new(n as nat, |x: int| c0[x] || (i < x && x < m)),
                            decreases j + 1 - m,
                        {
                            consumed.set(m, true);
                            m += 1;
                            assert(consumed@ =~= Seq::new(n as nat, |x: int| c0[x] || (i < x && x < m)));
                        }
                        assert(consumed@ =~= Seq::new(n as nat, |x: int| c0[x] || (i < x && x <= j)));
                    },
                    None => {},
                }
            },
            _ => {},
        }
        assert(CaptionScan { consumed: consumed@, table_caps: table_cap.deep_view(), image_caps: image_cap.deep_view() }
            == caption_step(ev, st, i as int));
        i += 1;
    }
    let ghost fin = CaptionScan { consumed: consumed@, table_caps: table_cap.deep_view(), image_caps: image_cap.deep_view() };
    assert(fin == caption_scan(ev, 0, no_captions(ev.len())));
    let mut out: Vec<Element> = Vec::new();
    let mut i: usize = 0;
    assert(out.deep_view() =~= Seq::<ElementV>::empty());
    while i < n
        invariant
            i <= n == elements.len(),
            ev == elements.deep_view(),
            consumed.len() == n,
            table_cap.len() == n,
            image_cap.len() == n,
            fin == (CaptionScan { consumed: consumed@, table_caps: table_cap.deep_view(), image_caps: image_cap.deep_view() }),
            caption_emit(ev, fin, 0) == out.deep_view() + caption_emit(ev, fin, i as int),
        decreases n - i,
    {
        if !consumed[i] {
            let ghost before = out;
            let el = match &elements[i] {
                Element::Table { rows, .. } => Element::Table { rows: copy_rows(rows), caption: copy_opt_string(&table_cap[i]) },
                Element::Image { path, width_emu, .. } => Element::Image {
                    path: path.clone(),
                    width_emu: *width_emu,
                    caption: copy_opt_string(&image_cap[i]),
                },
                other => other.copy(),
            };
            assert(el.deep_view() == with_caption(ev[i as int], fin, i as int));
            out.push(el);
            proof {
                lemma_push_deep_view(before, out, el);
                assert(out.deep_view() + caption_emit(ev, fin, i as int + 1) =~= before.deep_view() + caption_emit(ev, fin, i as int));
            }
        }
        i += 1;
    }
    assert(out.deep_view() + caption_emit(ev, fin, i as int) =~= out.deep_view());
    out
}

} // verus!
