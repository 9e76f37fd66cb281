//! Properties of the normalizer passes that hold for every input.
use vstd::prelude::*;
use crate::model::{ElementV, RunV, runs_text};
use crate::normalizer::{
    dedup_breaks, break_before, promoted, unbold, all_bold, numbering_level_of, alpha_count, upper_alpha_count, heading_level, merged, same_format, collapsed, is_ascii_space,
    without_stray_numbers, is_stray_page_number, bullets_from, bullet_of, nonblank_items, toc_pass,
    is_toc_header, is_lof_header, is_lot_header, folded, caption_scan, caption_step, caption_emit, no_captions,
    with_caption, CaptionScan, runs_blank, normalized, looks_like_table_caption, extract_table_caption,
    scan_back, scan_fwd, looks_like_figure_caption, extract_figure_caption, coalesce_element, whitespace_element, prune_list, is_bullet_char, fix_runs_spaces,
};
use crate::text::{
    trim, trim_start, contains, all_digits, unicode_lowercase, starts_with, ends_with, word_count, first_word,
    is_dotted_number, dot_count, drop_trail, CharClass,
};

verus! {

// ── Page breaks ──────────────────────────────────────────────────────────────

/// No two page breaks stand next to each other.
pub open spec fn no_adjacent_breaks(s: Seq<ElementV>) -> bool {
    forall|i: int| 0 <= i < s.len() - 1 ==> !((#[trigger] s[i]) is PageBreak && s[i + 1] is PageBreak)
}

/// The elements that are not page breaks, in order.
pub open spec fn non_breaks(s: Seq<ElementV>) -> Seq<ElementV>
    decreases s.len(),
{
    if s.len() == 0 {
        Seq::empty()
    } else if s.last() is PageBreak {
        non_breaks(s.drop_last())
    } else {
        non_breaks(s.drop_last()).push(s.last())
    }
}

/// After `deduplicate_page_breaks` no two page breaks are adjacent.
pub proof fn lemma_dedup_no_adjacent(s: Seq<ElementV>)
    ensures
        no_adjacent_breaks(dedup_breaks(s)),
    decreases s.len(),
{
    if s.len() > 0 {
        lemma_dedup_no_adjacent(s.drop_last());
        let p = dedup_breaks(s.drop_last());
        let r = dedup_breaks(s);
        assert forall|i: int| 0 <= i < r.len() - 1 implies !((#[trigger] r[i]) is PageBreak && r[i + 1] is PageBreak) by {
            if r != p {
                if i < r.len() - 2 {
                    assert(r[i] == p[i] && r[i + 1] == p[i + 1]);
                }
            }
        }
    }
}

/// A sequence without adjacent page breaks is left unchanged.
pub proof fn lemma_dedup_identity(s: Seq<ElementV>)
    requires
        no_adjacent_breaks(s),
    ensures
        dedup_breaks(s) == s,
    decreases s.len(),
{
    if s.len() > 0 {
        let t = s.drop_last();
        assert(no_adjacent_breaks(t)) by {
            assert forall|i: int| 0 <= i < t.len() - 1 implies !((#[trigger] t[i]) is PageBreak && t[i + 1] is PageBreak) by {
                assert(s[i] == t[i] && s[i + 1] == t[i + 1]);
            }
        }
        lemma_dedup_identity(t);
        if s.len() > 1 {
            assert(!(s[s.len() - 2] is PageBreak && s[s.len() - 1] is PageBreak));
        }
        assert(t.push(s.last()) =~= s);
    }
}

/// Deduplicating page breaks twice is the same as doing it once.
pub proof fn lemma_dedup_idempotent(s: Seq<ElementV>)
    ensures
        dedup_breaks(dedup_breaks(s)) == dedup_breaks(s),
{
    lemma_dedup_no_adjacent(s);
    lemma_dedup_identity(dedup_breaks(s));
}

/// Deduplicating page breaks keeps every other element, in order.
pub proof fn lemma_dedup_keeps_content(s: Seq<ElementV>)
    ensures
        non_breaks(dedup_breaks(s)) == non_breaks(s),
    decreases s.len(),
{
    if s.len() > 0 {
        lemma_dedup_keeps_content(s.drop_last());
        let p = dedup_breaks(s.drop_last());
        if !(s.last() is PageBreak && p.len() > 0 && p.last() is PageBreak) {
            assert(p.push(s.last()).drop_last() =~= p);
        }
    }
}

// ── Heading promotion ────────────────────────────────────────────────────────

/// A detected heading level is always 1–4.
pub proof fn lemma_heading_level_range(runs: Seq<RunV>)
    ensures
        heading_level(runs) matches Some(l) ==> 1 <= l <= 4,
{
}

/// Promotion changes no element up to and including the first page break
/// (the title page), keeps the number of elements, and every element it
/// changes becomes a level 1–4 heading whose runs are not bold.
pub proof fn lemma_promotion(s: Seq<ElementV>, i: int)
    requires
        0 <= i < s.len(),
    ensures
        promoted(s).len() == s.len(),
        !break_before(s, i) ==> promoted(s)[i] == s[i],
        promoted(s)[i] != s[i] ==> (promoted(s)[i] matches ElementV::Heading { level, runs } && 1 <= level <= 4
            && forall|k: int| 0 <= k < runs.len() ==> !(#[trigger] runs[k]).bold),
{
    match s[i] {
        ElementV::Paragraph { runs } => lemma_heading_level_range(runs),
        _ => {},
    }
}

// ── Run coalescing ───────────────────────────────────────────────────────────

/// Merging runs never changes the text.
pub proof fn lemma_merge_keeps_text(rs: Seq<RunV>)
    ensures
        runs_text(merged(rs)) == runs_text(rs),
    decreases rs.len(),
{
    if rs.len() > 0 {
        lemma_merge_keeps_text(rs.drop_last());
        let p = merged(rs.drop_last());
        let r = rs.last();
        if p.len() > 0 && same_format(p.last(), r) {
            let q = p.update(p.len() - 1, RunV { text: p.last().text + r.text, ..p.last() });
            assert(q.drop_last() =~= p.drop_last());
        } else {
            assert(p.push(r).drop_last() =~= p);
        }
    }
}

/// After merging, no two adjacent runs have the same formatting.
pub proof fn lemma_merge_maximal(rs: Seq<RunV>)
    ensures
        forall|i: int| 0 <= i < merged(rs).len() - 1 ==> !same_format(#[trigger] merged(rs)[i], merged(rs)[i + 1]),
    decreases rs.len(),
{
    if rs.len() > 0 {
        lemma_merge_maximal(rs.drop_last());
        let p = merged(rs.drop_last());
        let m = merged(rs);
        assert forall|i: int| 0 <= i < m.len() - 1 implies !same_format(#[trigger] m[i], m[i + 1]) by {
            if i < p.len() - 1 {
                assert(!same_format(p[i], p[i + 1]));
                assert(same_format(m[i], p[i]) && same_format(m[i + 1], p[i + 1]));
            }
        }
    }
}

// ── Whitespace ───────────────────────────────────────────────────────────────

/// After collapsing, no tab remains and no two white-space characters
/// stand together; the result ends with white space exactly when the input
/// does.
pub proof fn lemma_collapsed_clean(s: Seq<char>)
    ensures
        forall|i: int| 0 <= i < collapsed(s).len() ==> #[trigger] collapsed(s)[i] != '\t',
        forall|i: int| 0 <= i < collapsed(s).len() - 1 ==> !(is_ascii_space(#[trigger] collapsed(s)[i])
            && is_ascii_space(collapsed(s)[i + 1])),
        s.len() > 0 ==> collapsed(s).len() > 0 && (is_ascii_space(collapsed(s).last()) <==> is_ascii_space(s.last())),
    decreases s.len(),
{
    if s.len() > 0 {
        let t = s.drop_last();
        lemma_collapsed_clean(t);
        let p = collapsed(t);
        let c = collapsed(s);
        if s.len() > 1 {
            assert(t.last() == s[s.len() - 2]);
        }
        if is_ascii_space(s.last()) && s.len() > 1 && is_ascii_space(s[s.len() - 2]) {
            let q = p.drop_last();
            assert(c == q.push(' '));
            assert forall|i: int| 0 <= i < c.len() implies #[trigger] c[i] != '\t' by {
                if i < q.len() {
                    assert(c[i] == p[i]);
                }
            }
            assert forall|i: int| 0 <= i < c.len() - 1 implies !(is_ascii_space(#[trigger] c[i])
                && is_ascii_space(c[i + 1])) by {
                if i < c.len() - 2 {
                    assert(c[i] == p[i] && c[i + 1] == p[i + 1]);
                } else {
                    assert(c[i] == p[p.len() - 2]);
                    assert(p[p.len() - 1] == p.last());
                }
            }
        } else {
            assert forall|i: int| 0 <= i < c.len() implies #[trigger] c[i] != '\t' by {
                if i < p.len() {
                    assert(c[i] == p[i]);
                }
            }
            assert forall|i: int| 0 <= i < c.len() - 1 implies !(is_ascii_space(#[trigger] c[i])
                && is_ascii_space(c[i + 1])) by {
                if i < p.len() - 1 {
                    assert(c[i] == p[i] && c[i + 1] == p[i + 1]);
                } else {
                    assert(c[i] == p.last());
                }
            }
        }
    }
}

/// Text without white space is unchanged by collapsing.
pub proof fn lemma_collapsed_identity(s: Seq<char>)
    requires
        forall|i: int| 0 <= i < s.len() ==> !is_ascii_space(#[trigger] s[i]),
    ensures
        collapsed(s) == s,
    decreases s.len(),
{
    if s.len() > 0 {
        assert(!is_ascii_space(s[s.len() - 1]));
        lemma_collapsed_identity(s.drop_last());
        assert(s.drop_last().push(s.last()) =~= s);
    }
}

// ── Stray page numbers ───────────────────────────────────────────────────────

/// No stray page-number paragraph survives, and every other element does.
pub proof fn lemma_no_stray_numbers(s: Seq<ElementV>)
    ensures
        forall|i: int| 0 <= i < without_stray_numbers(s).len() ==> !is_stray_page_number(#[trigger] without_stray_numbers(s)[i]),
        (forall|i: int| 0 <= i < s.len() ==> !is_stray_page_number(#[trigger] s[i])) ==> without_stray_numbers(s) == s,
    decreases s.len(),
{
    if s.len() > 0 {
        lemma_no_stray_numbers(s.drop_last());
        let p = without_stray_numbers(s.drop_last());
        let r = without_stray_numbers(s);
        assert forall|i: int| 0 <= i < r.len() implies !is_stray_page_number(#[trigger] r[i]) by {
            if i < p.len() {
                assert(r[i] == p[i]);
            }
        }
        if forall|i: int| 0 <= i < s.len() ==> !is_stray_page_number(#[trigger] s[i]) {
            assert(!is_stray_page_number(s[s.len() - 1]));
            assert forall|i: int| 0 <= i < s.drop_last().len() implies !is_stray_page_number(#[trigger] s.drop_last()[i]) by {
                assert(s.drop_last()[i] == s[i]);
            }
            assert(s.drop_last().push(s.last()) =~= s);
        }
    }
}

// ── Inline bullets ───────────────────────────────────────────────────────────

/// After bullet promotion no paragraph starting with a bullet character is
/// left: every one of them became an item of an unordered list.
pub proof fn lemma_no_bullet_paragraphs_left(
    s: Seq<ElementV>,
    i: int,
    out: Seq<ElementV>,
    pending: Seq<(u8, Seq<RunV>)>,
)
    requires
        0 <= i,
        forall|k: int| 0 <= k < out.len() ==> (#[trigger] bullet_of(out[k])) is None,
    ensures
        forall|k: int| 0 <= k < bullets_from(s, i, out, pending).len()
            ==> (#[trigger] bullet_of(bullets_from(s, i, out, pending)[k])) is None,
    decreases s.len() - i,
{
    if i < s.len() {
        match bullet_of(s[i]) {
            Some(item) => lemma_no_bullet_paragraphs_left(s, i + 1, out, pending.push((0u8, item))),
            None => {
                let flushed = if pending.len() > 0 {
                    out.push(ElementV::List { ordered: false, items: pending })
                } else {
                    out
                };
                let next = flushed.push(s[i]);
                assert forall|k: int| 0 <= k < next.len() implies (#[trigger] bullet_of(next[k])) is None by {
                    if k < out.len() {
                        assert(next[k] == out[k]);
                    }
                }
                lemma_no_bullet_paragraphs_left(s, i + 1, next, Seq::empty());
            },
        }
    } else {
        let r = bullets_from(s, i, out, pending);
        assert forall|k: int| 0 <= k < r.len() implies (#[trigger] bullet_of(r[k])) is None by {
            if k < out.len() {
                assert(r[k] == out[k]);
            }
        }
    }
}

// ── Empty list items ─────────────────────────────────────────────────────────

/// After pruning, no list item is blank.
pub proof fn lemma_pruned_items_nonblank(items: Seq<(u8, Seq<RunV>)>)
    ensures
        forall|k: int| 0 <= k < nonblank_items(items).len() ==> !runs_blank((#[trigger] nonblank_items(items)[k]).1),
    decreases items.len(),
{
    if items.len() > 0 {
        lemma_pruned_items_nonblank(items.drop_last());
        let p = nonblank_items(items.drop_last());
        let r = nonblank_items(items);
        assert forall|k: int| 0 <= k < r.len() implies !runs_blank((#[trigger] r[k]).1) by {
            if k < p.len() {
                assert(r[k] == p[k]);
            }
        }
    }
}

// ── TOC detection ────────────────────────────────────────────────────────────

/// Without any TOC, LOF or LOT header, `detect_toc_block` keeps every element
/// as it is (stray dot-leader lines are not dropped).
pub proof fn lemma_toc_pass_identity(s: Seq<ElementV>, i: int)
    requires
        0 <= i <= s.len(),
        forall|k: int| 0 <= k < s.len() ==> !is_toc_header(#[trigger] s[k]) && !is_lof_header(s[k]) && !is_lot_header(s[k]),
    ensures
        toc_pass(s, i) == s.skip(i),
    decreases s.len() - i,
{
    if i < s.len() {
        assert(!is_toc_header(s[i]));
        lemma_toc_pass_identity(s, i + 1);
        assert(seq![s[i]] + s.skip(i + 1) =~= s.skip(i));
    } else {
        assert(s.skip(i) =~= Seq::<ElementV>::empty());
    }
}

// ── Captions ─────────────────────────────────────────────────────────────────

/// Without images and tables, caption folding leaves the elements unchanged.
pub proof fn lemma_fold_identity(s: Seq<ElementV>)
    requires
        forall|k: int| 0 <= k < s.len() ==> !((#[trigger] s[k]) is Table) && !(s[k] is Image),
    ensures
        folded(s) == s,
{
    lemma_scan_keeps_none(s, 0);
    lemma_emit_identity(s, no_captions(s.len()), 0);
}

proof fn lemma_scan_keeps_none(s: Seq<ElementV>, i: int)
    requires
        0 <= i,
        forall|k: int| 0 <= k < s.len() ==> !((#[trigger] s[k]) is Table) && !(s[k] is Image),
    ensures
        caption_scan(s, i, no_captions(s.len())) == no_captions(s.len()),
    decreases s.len() - i,
{
    if i < s.len() {
        assert(!(s[i] is Table) && !(s[i] is Image));
        assert(caption_step(s, no_captions(s.len()), i) == no_captions(s.len()));
        lemma_scan_keeps_none(s, i + 1);
    }
}

proof fn lemma_emit_identity(s: Seq<ElementV>, st: CaptionScan, i: int)
    requires
        0 <= i <= s.len(),
        st == no_captions(s.len()),
        forall|k: int| 0 <= k < s.len() ==> !((#[trigger] s[k]) is Table) && !(s[k] is Image),
    ensures
        caption_emit(s, st, i) == s.skip(i),
    decreases s.len() - i,
{
    if i < s.len() {
        lemma_emit_identity(s, st, i + 1);
        assert(!(s[i] is Table) && !(s[i] is Image));
        assert(with_caption(s[i], st, i) == s[i]);
        assert(seq![s[i]] + s.skip(i + 1) =~= s.skip(i));
    } else {
        assert(s.skip(i) =~= Seq::<ElementV>::empty());
    }
}

proof fn lemma_pair_kept_before_folding(runs: Seq<RunV>, rows: Seq<Seq<Seq<RunV>>>)
    requires
        !is_toc_header(ElementV::Paragraph { runs }),
        !is_lof_header(ElementV::Paragraph { runs }),
        !is_lot_header(ElementV::Paragraph { runs }),
    ensures
        toc_pass(dedup_breaks(seq![ElementV::Paragraph { runs }, ElementV::Table { rows, caption: None }]), 0)
            == seq![ElementV::Paragraph { runs }, ElementV::Table { rows, caption: None }],
{
    let tb = ElementV::Table { rows, caption: None };
    let s = seq![ElementV::Paragraph { runs }, tb];
    assert(no_adjacent_breaks(s));
    lemma_dedup_identity(s);
    reveal_strlit("TABLE OF CONTENTS");
    reveal_strlit("CONTENTS");
    reveal_strlit("LIST OF FIGURES");
    reveal_strlit("LIST OF FIGURE");
    reveal_strlit("LIST OF TABLES");
    reveal_strlit("LIST OF TABLE");
    assert(!contains(Seq::<char>::empty(), "TABLE OF CONTENTS"@));
    assert(!contains(Seq::<char>::empty(), "LIST OF FIGURES"@));
    assert(!contains(Seq::<char>::empty(), "LIST OF FIGURE"@));
    assert(!contains(Seq::<char>::empty(), "LIST OF TABLES"@));
    assert(!contains(Seq::<char>::empty(), "LIST OF TABLE"@));
    assert(!is_toc_header(tb) && !is_lof_header(tb) && !is_lot_header(tb));
    lemma_toc_pass_identity(s, 0);
    assert(s.skip(0) =~= s);
}

proof fn lemma_pair_folded(runs: Seq<RunV>, rows: Seq<Seq<Seq<RunV>>>)
    requires
        looks_like_table_caption(trim(runs_text(runs))),
    ensures
        folded(seq![ElementV::Paragraph { runs }, ElementV::Table { rows, caption: None }]) == seq![
            ElementV::Table { rows, caption: Some(extract_table_caption(trim(runs_text(runs)))) },
        ],
{
    let tb = ElementV::Table { rows, caption: None };
    let s = seq![ElementV::Paragraph { runs }, tb];
    let t = trim(runs_text(runs));
    let cap = extract_table_caption(t);
    let out = ElementV::Table { rows, caption: Some(cap) };
    reveal_strlit("table");
    reveal_strlit("tab.");
    assert(t.len() > 0);
    let st0 = no_captions(2);
    assert(caption_step(s, st0, 0) == st0);
    assert(scan_back(s, st0.consumed, 0, 0) == Some((0int, cap)));
    let st1 = CaptionScan {
        consumed: st0.consumed.update(0, true),
        table_caps: st0.table_caps.update(1, Some(cap)),
        image_caps: st0.image_caps,
    };
    assert(caption_step(s, st0, 1) == st1);
    assert(caption_scan(s, 2, st1) == st1);
    assert(caption_scan(s, 1, st0) == st1);
    assert(caption_scan(s, 0, st0) == st1);
    assert(caption_emit(s, st1, 2) =~= Seq::<ElementV>::empty());
    assert(with_caption(tb, st1, 1) == out);
    assert(caption_emit(s, st1, 1) =~= seq![out]);
    assert(caption_emit(s, st1, 0) =~= seq![out]);
}

proof fn lemma_late_passes_keep(out: ElementV)
    requires
        !(out is Paragraph) && !(out is Heading) && !(out is List),
    ensures
        ({
            let s4 = promoted(seq![out]);
            let s5 = s4.map_values(|e: ElementV| coalesce_element(e));
            let s6 = s5.map_values(|e: ElementV| whitespace_element(e));
            let s7 = without_stray_numbers(s6);
            let s8 = bullets_from(s7, 0, Seq::empty(), Seq::empty());
            s8.map_values(|e: ElementV| prune_list(e))
        }) == seq![out],
{
    let s4 = promoted(seq![out]);
    assert(s4 =~= seq![out]);
    let s5 = s4.map_values(|e: ElementV| coalesce_element(e));
    assert(s5 =~= seq![out]);
    let s6 = s5.map_values(|e: ElementV| whitespace_element(e));
    assert(s6 =~= seq![out]);
    assert(!is_stray_page_number(out));
    assert(seq![out].drop_last() =~= Seq::<ElementV>::empty());
    assert(seq![out].last() == out);
    assert(without_stray_numbers(Seq::<ElementV>::empty()) =~= Seq::<ElementV>::empty());
    assert(without_stray_numbers(seq![out]) == without_stray_numbers(Seq::<ElementV>::empty()).push(out));
    assert(Seq::<ElementV>::empty().push(out) =~= seq![out]);
    assert(without_stray_numbers(seq![out]) =~= seq![out]);
    assert(bullet_of(out) is None);
    assert(Seq::<ElementV>::empty().push(out) =~= seq![out]);
    assert(bullets_from(seq![out], 1, seq![out], Seq::empty()) == seq![out]);
    assert(bullets_from(seq![out], 0, Seq::empty(), Seq::empty()) == seq![out]);
    assert(seq![out].map_values(|e: ElementV| prune_list(e)) =~= seq![out]);
}

/// Normalization folds a table caption into its table: a paragraph that
/// reads as a table caption ("Table 3: Results", "Tab. 3 ...") directly
/// before a table without a caption does not survive as a paragraph; the
/// table carries the caption text without its label.  Stated for the pair
/// on its own, for a paragraph that is not a contents header.
pub proof fn lemma_normalize_folds_table_caption(runs: Seq<RunV>, rows: Seq<Seq<Seq<RunV>>>)
    requires
        looks_like_table_caption(trim(runs_text(runs))),
        !is_toc_header(ElementV::Paragraph { runs }),
        !is_lof_header(ElementV::Paragraph { runs }),
        !is_lot_header(ElementV::Paragraph { runs }),
    ensures
        normalized(seq![ElementV::Paragraph { runs }, ElementV::Table { rows, caption: None }]) == seq![
            ElementV::Table { rows, caption: Some(extract_table_caption(trim(runs_text(runs)))) },
        ],
{
    lemma_pair_kept_before_folding(runs, rows);
    lemma_pair_folded(runs, rows);
    lemma_late_passes_keep(ElementV::Table { rows, caption: Some(extract_table_caption(trim(runs_text(runs)))) });
}

proof fn lemma_bullets_keep_no_stray(
    s: Seq<ElementV>,
    i: int,
    out: Seq<ElementV>,
    pending: Seq<(u8, Seq<RunV>)>,
)
    requires
        0 <= i,
        forall|k: int| 0 <= k < s.len() ==> !is_stray_page_number(#[trigger] s[k]),
        forall|k: int| 0 <= k < out.len() ==> !is_stray_page_number(#[trigger] out[k]),
    ensures
        forall|k: int| 0 <= k < bullets_from(s, i, out, pending).len()
            ==> !is_stray_page_number(#[trigger] bullets_from(s, i, out, pending)[k]),
    decreases s.len() - i,
{
    if i < s.len() {
        match bullet_of(s[i]) {
            Some(item) => {
                lemma_bullets_keep_no_stray(s, i + 1, out, pending.push((0u8, item)));
                assert(bullets_from(s, i, out, pending) == bullets_from(s, i + 1, out, pending.push((0u8, item))));
            },
            None => {
                let flushed = if pending.len() > 0 {
                    out.push(ElementV::List { ordered: false, items: pending })
                } else {
                    out
                };
                let next = flushed.push(s[i]);
                assert(!is_stray_page_number(s[i]));
                assert forall|k: int| 0 <= k < next.len() implies !is_stray_page_number(#[trigger] next[k]) by {
                    if k < out.len() {
                        assert(next[k] == out[k]);
                    } else if k == next.len() - 1 {
                        assert(next[k] == s[i]);
                    } else {
                        assert(next[k] == (ElementV::List { ordered: false, items: pending }));
                    }
                }
                lemma_bullets_keep_no_stray(s, i + 1, next, Seq::empty());
                assert(bullets_from(s, i, out, pending) == bullets_from(s, i + 1, next, Seq::empty()));
            },
        }
    } else {
        let r = bullets_from(s, i, out, pending);
        assert forall|k: int| 0 <= k < r.len() implies !is_stray_page_number(#[trigger] r[k]) by {
            if k < out.len() {
                assert(r[k] == out[k]);
            } else {
                assert(r[k] == (ElementV::List { ordered: false, items: pending }));
            }
        }
    }
}

/// What normalization leaves behind: no stray page-number paragraph (one
/// holding only one to three digits), no paragraph that starts with a
/// bullet character (those became list items), and no blank list item.
pub proof fn lemma_normalized_clean(s: Seq<ElementV>)
    ensures
        forall|k: int| 0 <= k < normalized(s).len() ==> !is_stray_page_number(#[trigger] normalized(s)[k])
            && bullet_of(normalized(s)[k]) is None,
        forall|k: int, m: int| 0 <= k < normalized(s).len() && (#[trigger] normalized(s)[k]) is List && 0 <= m < normalized(
            s,
        )[k]->List_items.len() ==> !runs_blank((#[trigger] normalized(s)[k]->List_items[m]).1),
{
    let s1 = dedup_breaks(s);
    let s2 = toc_pass(s1, 0);
    let s3 = folded(s2);
    let s4 = promoted(s3);
    let s5 = s4.map_values(|e: ElementV| coalesce_element(e));
    let s6 = s5.map_values(|e: ElementV| whitespace_element(e));
    let s7 = without_stray_numbers(s6);
    let s8 = bullets_from(s7, 0, Seq::empty(), Seq::empty());
    let s9 = s8.map_values(|e: ElementV| prune_list(e));
    assert(normalized(s) == s9);
    lemma_no_stray_numbers(s6);
    lemma_bullets_keep_no_stray(s7, 0, Seq::empty(), Seq::empty());
    lemma_no_bullet_paragraphs_left(s7, 0, Seq::empty(), Seq::empty());
    assert forall|k: int| 0 <= k < s9.len() implies !is_stray_page_number(#[trigger] s9[k]) && bullet_of(s9[k]) is None by {
        assert(!is_stray_page_number(s8[k]));
        assert(bullet_of(s8[k]) is None);
    }
    assert forall|k: int, m: int| 0 <= k < s9.len() && (#[trigger] s9[k]) is List && 0 <= m < s9[k]->List_items.len()
        implies !runs_blank((#[trigger] s9[k]->List_items[m]).1) by {
        lemma_pruned_items_nonblank(s8[k]->List_items);
    }
}

proof fn lemma_dedup_all_breaks(n: nat)
    requires
        n >= 1,
    ensures
        dedup_breaks(Seq::new(n, |i: int| ElementV::PageBreak)) == seq![ElementV::PageBreak],
    decreases n,
{
    let s = Seq::new(n, |i: int| ElementV::PageBreak);
    if n == 1 {
        assert(s.drop_last() =~= Seq::<ElementV>::empty());
        assert(dedup_breaks(Seq::<ElementV>::empty()) =~= Seq::<ElementV>::empty());
        assert(Seq::<ElementV>::empty().push(ElementV::PageBreak) =~= seq![ElementV::PageBreak]);
    } else {
        lemma_dedup_all_breaks((n - 1) as nat);
        assert(s.drop_last() =~= Seq::new((n - 1) as nat, |i: int| ElementV::PageBreak));
    }
}

/// Any run of page breaks normalizes to a single page break.
pub proof fn lemma_normalize_page_breaks(n: nat)
    requires
        n >= 1,
    ensures
        normalized(Seq::new(n, |i: int| ElementV::PageBreak)) == seq![ElementV::PageBreak],
{
    let pb = ElementV::PageBreak;
    let s1 = seq![pb];
    lemma_dedup_all_breaks(n);
    reveal_strlit("TABLE OF CONTENTS");
    reveal_strlit("CONTENTS");
    reveal_strlit("LIST OF FIGURES");
    reveal_strlit("LIST OF FIGURE");
    reveal_strlit("LIST OF TABLES");
    reveal_strlit("LIST OF TABLE");
    assert(!contains(Seq::<char>::empty(), "TABLE OF CONTENTS"@));
    assert(!contains(Seq::<char>::empty(), "LIST OF FIGURES"@));
    assert(!contains(Seq::<char>::empty(), "LIST OF FIGURE"@));
    assert(!contains(Seq::<char>::empty(), "LIST OF TABLES"@));
    assert(!contains(Seq::<char>::empty(), "LIST OF TABLE"@));
    assert(!is_toc_header(pb) && !is_lof_header(pb) && !is_lot_header(pb));
    lemma_toc_pass_identity(s1, 0);
    assert(s1.skip(0) =~= s1);
    lemma_fold_identity(s1);
    lemma_late_passes_keep(pb);
}

proof fn lemma_last_passes_keep(e: ElementV)
    requires
        !is_stray_page_number(e),
        bullet_of(e) is None,
        !(e is List),
    ensures
        bullets_from(without_stray_numbers(seq![e]), 0, Seq::empty(), Seq::empty()).map_values(
            |x: ElementV| prune_list(x),
        ) == seq![e],
{
    assert(seq![e].last() == e);
    assert(seq![e].drop_last() =~= Seq::<ElementV>::empty());
    assert(without_stray_numbers(Seq::<ElementV>::empty()) =~= Seq::<ElementV>::empty());
    assert(Seq::<ElementV>::empty().push(e) =~= seq![e]);
    assert(without_stray_numbers(seq![e]) =~= seq![e]);
    assert(bullets_from(seq![e], 1, seq![e], Seq::empty()) == seq![e]);
    assert(bullets_from(seq![e], 0, Seq::empty(), Seq::empty()) == seq![e]);
    assert(seq![e].map_values(|x: ElementV| prune_list(x)) =~= seq![e]);
}

proof fn lemma_lone_paragraph_first_passes(p: ElementV)
    requires
        p is Paragraph,
        !is_toc_header(p),
        !is_lof_header(p),
        !is_lot_header(p),
    ensures
        promoted(folded(toc_pass(dedup_breaks(seq![p]), 0))) == seq![p],
{
    let s = seq![p];
    assert(no_adjacent_breaks(s));
    lemma_dedup_identity(s);
    lemma_toc_pass_identity(s, 0);
    assert(s.skip(0) =~= s);
    lemma_fold_identity(s);
    assert(!break_before(s, 0));
    assert(promoted(s) =~= s);
}

proof fn lemma_two_runs_cleaned(a: RunV, b: RunV)
    requires
        same_format(a, b),
        !a.mono,
    ensures
        seq![ElementV::Paragraph { runs: seq![a, b] }].map_values(|e: ElementV| coalesce_element(e)).map_values(
            |e: ElementV| whitespace_element(e),
        ) == seq![ElementV::Paragraph { runs: seq![RunV { text: collapsed(a.text + b.text), ..a }] }],
{
    let s = seq![ElementV::Paragraph { runs: seq![a, b] }];
    let m = RunV { text: a.text + b.text, ..a };
    assert(seq![a, b].drop_last() =~= seq![a]);
    assert(seq![a].drop_last() =~= Seq::<RunV>::empty());
    assert(merged(Seq::<RunV>::empty()) =~= Seq::<RunV>::empty());
    assert(merged(seq![a]) =~= seq![a]);
    assert(merged(seq![a, b]) =~= seq![m]);
    let p5 = ElementV::Paragraph { runs: seq![m] };
    assert(s.map_values(|e: ElementV| coalesce_element(e)) =~= seq![p5]);
    let r6 = RunV { text: collapsed(a.text + b.text), ..a };
    assert(fix_runs_spaces(seq![m]) =~= seq![r6]);
    assert(seq![p5].map_values(|e: ElementV| whitespace_element(e)) =~= seq![ElementV::Paragraph { runs: seq![r6] }]);
}

/// Normalizing a lone paragraph of two runs with the same formatting (not
/// monospace) merges them into one run and collapses white space in its
/// text, the merged run keeping the formatting, when the paragraph is no
/// contents header and its collapsed text is neither a stray page number
/// nor a bulleted line.
pub proof fn lemma_normalize_plain_paragraph(a: RunV, b: RunV)
    requires
        same_format(a, b),
        !a.mono,
        !is_toc_header(ElementV::Paragraph { runs: seq![a, b] }),
        !is_lof_header(ElementV::Paragraph { runs: seq![a, b] }),
        !is_lot_header(ElementV::Paragraph { runs: seq![a, b] }),
        !(trim(collapsed(a.text + b.text)).len() > 0 && trim(collapsed(a.text + b.text)).len() <= 3 && all_digits(
            trim(collapsed(a.text + b.text)),
        )),
        trim_start(collapsed(a.text + b.text)).len() == 0 || !is_bullet_char(
            trim_start(collapsed(a.text + b.text))[0],
        ),
    ensures
        normalized(seq![ElementV::Paragraph { runs: seq![a, b] }]) == seq![
            ElementV::Paragraph { runs: seq![RunV { text: collapsed(a.text + b.text), ..a }] },
        ],
{
    let r6 = RunV { text: collapsed(a.text + b.text), ..a };
    let p6 = ElementV::Paragraph { runs: seq![r6] };
    lemma_lone_paragraph_first_passes(ElementV::Paragraph { runs: seq![a, b] });
    lemma_two_runs_cleaned(a, b);
    assert(runs_text(seq![r6]) =~= r6.text) by {
        assert(seq![r6].drop_last() =~= Seq::<RunV>::empty());
        assert(seq![r6].last() == r6);
        assert(runs_text(Seq::<RunV>::empty()) =~= Seq::<char>::empty());
        assert(runs_text(seq![r6]) == runs_text(Seq::<RunV>::empty()) + r6.text);
    }
    assert(!is_stray_page_number(p6));
    assert(bullet_of(p6) is None);
    lemma_last_passes_keep(p6);
}

proof fn lemma_two_late_passes_keep(x: ElementV, y: ElementV)
    requires
        !is_stray_page_number(x) && bullet_of(x) is None && !(x is List),
        !is_stray_page_number(y) && bullet_of(y) is None && !(y is List),
    ensures
        bullets_from(without_stray_numbers(seq![x, y]), 0, Seq::empty(), Seq::empty()).map_values(
            |e: ElementV| prune_list(e),
        ) == seq![x, y],
{
    let s = seq![x, y];
    assert(s.drop_last() =~= seq![x]);
    assert(seq![x].drop_last() =~= Seq::<ElementV>::empty());
    assert(without_stray_numbers(Seq::<ElementV>::empty()) =~= Seq::<ElementV>::empty());
    assert(without_stray_numbers(seq![x]) =~= seq![x]);
    assert(without_stray_numbers(s) =~= s);
    assert(Seq::<ElementV>::empty().push(x) =~= seq![x]);
    assert(seq![x].push(y) =~= s);
    assert(bullets_from(s, 2, s, Seq::empty()) == s);
    assert(bullets_from(s, 1, seq![x], Seq::empty()) == s);
    assert(bullets_from(s, 0, Seq::empty(), Seq::empty()) == s);
    assert(s.map_values(|e: ElementV| prune_list(e)) =~= s);
}

/// After a page break, a paragraph that reads as a heading (all bold, short,
/// a chapter label, a numbered title or mostly capitals; see
/// `heading_level`) is normalized into a heading of that level.
pub proof fn lemma_normalize_promotes_after_break(runs: Seq<RunV>)
    requires
        heading_level(runs) is Some,
        !is_toc_header(ElementV::Paragraph { runs }),
        !is_lof_header(ElementV::Paragraph { runs }),
        !is_lot_header(ElementV::Paragraph { runs }),
    ensures
        normalized(seq![ElementV::PageBreak, ElementV::Paragraph { runs }]).len() == 2,
        normalized(seq![ElementV::PageBreak, ElementV::Paragraph { runs }])[0] == ElementV::PageBreak,
        normalized(seq![ElementV::PageBreak, ElementV::Paragraph { runs }])[1] matches ElementV::Heading { level, .. }
            && level == heading_level(runs)->0,
{
    let pb = ElementV::PageBreak;
    let p = ElementV::Paragraph { runs };
    let s = seq![pb, p];
    assert(no_adjacent_breaks(s));
    lemma_dedup_identity(s);
    reveal_strlit("TABLE OF CONTENTS");
    reveal_strlit("CONTENTS");
    reveal_strlit("LIST OF FIGURES");
    reveal_strlit("LIST OF FIGURE");
    reveal_strlit("LIST OF TABLES");
    reveal_strlit("LIST OF TABLE");
    assert(!contains(Seq::<char>::empty(), "TABLE OF CONTENTS"@));
    assert(!contains(Seq::<char>::empty(), "LIST OF FIGURES"@));
    assert(!contains(Seq::<char>::empty(), "LIST OF FIGURE"@));
    assert(!contains(Seq::<char>::empty(), "LIST OF TABLES"@));
    assert(!contains(Seq::<char>::empty(), "LIST OF TABLE"@));
    assert(!is_toc_header(pb) && !is_lof_header(pb) && !is_lot_header(pb));
    lemma_toc_pass_identity(s, 0);
    assert(s.skip(0) =~= s);
    lemma_fold_identity(s);
    assert(break_before(s, 1)) by {
        assert(s[0] is PageBreak);
    }
    let k = heading_level(runs)->0;
    let h = ElementV::Heading { level: k, runs: runs.map_values(|r: RunV| unbold(r)) };
    assert(promoted(s) =~= seq![pb, h]);
    let s5 = seq![pb, h].map_values(|e: ElementV| coalesce_element(e));
    let s6 = s5.map_values(|e: ElementV| whitespace_element(e));
    assert(s6[0] == pb);
    assert(s6[1] is Heading);
    assert(s6 =~= seq![s6[0], s6[1]]);
    lemma_two_late_passes_keep(s6[0], s6[1]);
}

/// Which paragraphs read as headings.  Only an all-bold paragraph whose
/// trimmed text has 1 to 120 characters, does not end with a full stop and
/// has 1 to 12 words qualifies; then text starting with "chapter" (in any
/// case) is level 1, text starting with a dotted number is as deep as the
/// number has groups (at most 4), and text whose letters are at least three
/// quarters capitals is level 2.
pub proof fn lemma_heading_rules(runs: Seq<RunV>)
    ensures
        !all_bold(runs) || runs.len() == 0 ==> heading_level(runs) is None,
        trim(runs_text(runs)).len() == 0 || trim(runs_text(runs)).len() > 120 ==> heading_level(runs) is None,
        ends_with(trim(runs_text(runs)), seq!['.']) ==> heading_level(runs) is None,
        word_count(trim(runs_text(runs))) > 12 ==> heading_level(runs) is None,
        ({
            let t = trim(runs_text(runs));
            runs.len() > 0 && all_bold(runs) && 0 < t.len() <= 120 && !ends_with(t, seq!['.']) && 1 <= word_count(t)
                <= 12
        }) ==> ({
            let t = trim(runs_text(runs));
            &&& starts_with(unicode_lowercase(t), "chapter"@) ==> heading_level(runs) == Some(1u8)
            &&& !starts_with(unicode_lowercase(t), "chapter"@) && numbering_level_of(first_word(t)) is Some
                ==> heading_level(runs) == numbering_level_of(first_word(t))
            &&& !starts_with(unicode_lowercase(t), "chapter"@) && numbering_level_of(first_word(t)) is None
                && alpha_count(t) > 0 && 4 * upper_alpha_count(t) >= 3 * alpha_count(t) ==> heading_level(runs)
                == Some(2u8)
        }),
{
}

/// A dotted section number gives the depth of its heading: one group is
/// level 1, two are level 2, three level 3, and four or more level 4; a
/// trailing full stop ("1.") does not count as a group.
pub proof fn lemma_numbering_levels(word: Seq<char>)
    ensures
        is_dotted_number(drop_trail(word, CharClass::Exactly('.'))) ==> numbering_level_of(word) == Some(
            if dot_count(drop_trail(word, CharClass::Exactly('.'))) >= 3 {
                4u8
            } else {
                (dot_count(drop_trail(word, CharClass::Exactly('.'))) + 1) as u8
            },
        ),
        !is_dotted_number(drop_trail(word, CharClass::Exactly('.'))) ==> numbering_level_of(word) is None,
{
}

/// Contents detection leaves no contents header behind: every "Table of
/// Contents", "List of Figures" or "List of Tables" header, with the
/// material after it, has become a generated block, and every element kept
/// is one of the input's.
pub proof fn lemma_toc_headers_replaced(s: Seq<ElementV>, i: int)
    requires
        0 <= i,
    ensures
        forall|k: int| 0 <= k < toc_pass(s, i).len() ==> !is_toc_header(#[trigger] toc_pass(s, i)[k])
            && !is_lof_header(toc_pass(s, i)[k]) && !is_lot_header(toc_pass(s, i)[k]),
        forall|k: int| 0 <= k < toc_pass(s, i).len() ==> (#[trigger] toc_pass(s, i)[k]) is TocBlock
            || toc_pass(s, i)[k] is LofBlock || toc_pass(s, i)[k] is LotBlock || s.contains(toc_pass(s, i)[k]),
    decreases s.len() - i,
{
    reveal_strlit("TABLE OF CONTENTS");
    reveal_strlit("CONTENTS");
    reveal_strlit("LIST OF FIGURES");
    reveal_strlit("LIST OF FIGURE");
    reveal_strlit("LIST OF TABLES");
    reveal_strlit("LIST OF TABLE");
    assert(!contains(Seq::<char>::empty(), "TABLE OF CONTENTS"@));
    assert(!contains(Seq::<char>::empty(), "LIST OF FIGURES"@));
    assert(!contains(Seq::<char>::empty(), "LIST OF FIGURE"@));
    assert(!contains(Seq::<char>::empty(), "LIST OF TABLES"@));
    assert(!contains(Seq::<char>::empty(), "LIST OF TABLE"@));
    if 0 <= i < s.len() {
        crate::normalizer::lemma_toc_region_end_bounds(s, i + 1);
        crate::normalizer::lemma_entries_end_bounds(s, i + 1);
        let head = if is_toc_header(s[i]) {
            ElementV::TocBlock
        } else if is_lof_header(s[i]) {
            ElementV::LofBlock
        } else if is_lot_header(s[i]) {
            ElementV::LotBlock
        } else {
            s[i]
        };
        let next = if is_toc_header(s[i]) {
            crate::normalizer::toc_region_end(s, i + 1)
        } else if is_lof_header(s[i]) || is_lot_header(s[i]) {
            crate::normalizer::entries_end(s, i + 1)
        } else {
            i + 1
        };
        lemma_toc_headers_replaced(s, next);
        let r = toc_pass(s, i);
        assert(r == seq![head] + toc_pass(s, next));
        assert(!is_toc_header(ElementV::TocBlock) && !is_lof_header(ElementV::TocBlock) && !is_lot_header(ElementV::TocBlock));
        assert(!is_toc_header(ElementV::LofBlock) && !is_lof_header(ElementV::LofBlock) && !is_lot_header(ElementV::LofBlock));
        assert(!is_toc_header(ElementV::LotBlock) && !is_lof_header(ElementV::LotBlock) && !is_lot_header(ElementV::LotBlock));
        assert forall|k: int| 0 <= k < r.len() implies !is_toc_header(#[trigger] r[k]) && !is_lof_header(r[k])
            && !is_lot_header(r[k]) by {
            if k > 0 {
                assert(r[k] == toc_pass(s, next)[k - 1]);
            }
        }
        assert forall|k: int| 0 <= k < r.len() implies (#[trigger] r[k]) is TocBlock || r[k] is LofBlock
            || r[k] is LotBlock || s.contains(r[k]) by {
            if k > 0 {
                assert(r[k] == toc_pass(s, next)[k - 1]);
            } else if head == s[i] {
                assert(s.contains(s[i]));
            }
        }
    }
}

/// Consecutive paragraphs that start with a bullet character become one
/// unordered list, their items in order at the top level, with the bullets
/// stripped.
pub proof fn lemma_bullets_grouped(p: ElementV, q: ElementV)
    requires
        bullet_of(p) is Some,
        bullet_of(q) is Some,
    ensures
        bullets_from(seq![p, q], 0, Seq::empty(), Seq::empty()) == seq![
            ElementV::List { ordered: false, items: seq![(0u8, bullet_of(p)->0), (0u8, bullet_of(q)->0)] },
        ],
{
    let s = seq![p, q];
    let items = seq![(0u8, bullet_of(p)->0), (0u8, bullet_of(q)->0)];
    assert(Seq::<(u8, Seq<RunV>)>::empty().push((0u8, bullet_of(p)->0)).push((0u8, bullet_of(q)->0)) =~= items);
    assert(Seq::<ElementV>::empty().push(ElementV::List { ordered: false, items }) =~= seq![
        ElementV::List { ordered: false, items },
    ]);
    let p1 = Seq::<(u8, Seq<RunV>)>::empty().push((0u8, bullet_of(p)->0));
    assert(s[0] == p && s[1] == q);
    assert(bullets_from(s, 2, Seq::empty(), items) == seq![ElementV::List { ordered: false, items }]);
    assert(bullets_from(s, 1, Seq::empty(), p1) == bullets_from(s, 2, Seq::empty(), p1.push((0u8, bullet_of(q)->0))));
    assert(bullets_from(s, 0, Seq::empty(), Seq::empty()) == bullets_from(s, 1, Seq::empty(), p1));
}

/// A figure caption ("Figure 2: ...", "Fig. 2 ...") in the paragraph right
/// after an image without a caption is folded into the image: the
/// paragraph is gone and the image carries the caption without its label.
pub proof fn lemma_figure_caption_folded(path: Seq<char>, width_emu: Option<u64>, runs: Seq<RunV>)
    requires
        looks_like_figure_caption(trim(runs_text(runs))),
    ensures
        folded(seq![ElementV::Image { path, width_emu, caption: None }, ElementV::Paragraph { runs }]) == seq![
            ElementV::Image { path, width_emu, caption: Some(extract_figure_caption(trim(runs_text(runs)))) },
        ],
{
    let img = ElementV::Image { path, width_emu, caption: None };
    let s = seq![img, ElementV::Paragraph { runs }];
    let t = trim(runs_text(runs));
    let cap = extract_figure_caption(t);
    let out = ElementV::Image { path, width_emu, caption: Some(cap) };
    reveal_strlit("figure");
    reveal_strlit("fig.");
    reveal_strlit("plate");
    assert(t.len() > 0);
    let st0 = no_captions(2);
    assert(scan_fwd(s, 1, 0) == Some((1int, cap)));
    let st1 = CaptionScan {
        consumed: Seq::new(2, |k: int| st0.consumed[k] || (0 < k && k <= 1)),
        table_caps: st0.table_caps,
        image_caps: st0.image_caps.update(0, Some(cap)),
    };
    assert(caption_step(s, st0, 0) == st1);
    assert(caption_step(s, st1, 1) == st1);
    assert(caption_scan(s, 2, st1) == st1);
    assert(caption_scan(s, 1, st1) == st1);
    assert(caption_scan(s, 0, st0) == st1);
    assert(st1.consumed[1]);
    assert(!st1.consumed[0]);
    assert(caption_emit(s, st1, 2) =~= Seq::<ElementV>::empty());
    assert(caption_emit(s, st1, 1) =~= Seq::<ElementV>::empty());
    assert(with_caption(img, st1, 0) == out);
    assert(caption_emit(s, st1, 0) =~= seq![out]);
}

} // verus!
