//! The human-readable summary of a parsed document that `validate` prints.
use vstd::prelude::*;
use crate::model::{Cell, Document, DocumentV, Element, ElementV, Run, RunV, runs_text, concat_runs, opt_view};
use crate::text::{decimal, push_decimal, push_char, utf8_len, char_index_at_byte, string_of};

verus! {

broadcast use vstd::string::group_string_axioms;

// ── Counts ───────────────────────────────────────────────────────────────────

/// The summary group an element is counted in: headings, paragraphs, lists,
/// tables, images, page breaks, and generated lists (contents, figures,
/// tables).
pub open spec fn group_of(e: ElementV) -> int {
    match e {
        ElementV::Heading { .. } => 0,
        ElementV::Paragraph { .. } => 1,
        ElementV::List { .. } => 2,
        ElementV::Table { .. } => 3,
        ElementV::Image { .. } => 4,
        ElementV::PageBreak => 5,
        _ => 6,
    }
}

/// The number of elements in group `g`.
pub open spec fn count_group(els: Seq<ElementV>, g: int) -> nat
    decreases els.len(),
{
    if els.len() == 0 {
        0
    } else {
        count_group(els.drop_last(), g) + if group_of(els.last()) == g { 1nat } else { 0nat }
    }
}

pub proof fn lemma_count_group_bound(els: Seq<ElementV>, g: int)
    ensures
        count_group(els, g) <= els.len(),
    decreases els.len(),
{
    if els.len() > 0 {
        lemma_count_group_bound(els.drop_last(), g);
    }
}

/// Every element is counted in exactly one group: the seven counts add up
/// to the number of elements.
pub proof fn lemma_counts_partition(els: Seq<ElementV>)
    ensures
        count_group(els, 0) + count_group(els, 1) + count_group(els, 2) + count_group(els, 3) + count_group(els, 4)
            + count_group(els, 5) + count_group(els, 6) == els.len(),
    decreases els.len(),
{
    if els.len() > 0 {
        lemma_counts_partition(els.drop_last());
    }
}

/// How many elements of each group a document has.
pub struct Counts {
    pub headings: u32,
    pub paragraphs: u32,
    pub lists: u32,
    pub tables: u32,
    pub images: u32,
    pub page_breaks: u32,
    pub toc_blocks: u32,
}

fn group_exec(e: &Element) -> (g: u8)
    ensures
        g == group_of(e.deep_view()),
{
    match e {
        Element::Heading { .. } => 0,
        Element::Paragraph { .. } => 1,
        Element::List { .. } => 2,
        Element::Table { .. } => 3,
        Element::Image { .. } => 4,
        Element::PageBreak => 5,
        _ => 6,
    }
}

/// Counts the elements of each group.
pub fn count_elements(elements: &Vec<Element>) -> (c: Counts)
    requires
        elements.len() <= u32::MAX,
    ensures
        c.headings == count_group(elements.deep_view(), 0),
        c.paragraphs == count_group(elements.deep_view(), 1),
        c.lists == count_group(elements.deep_view(), 2),
        c.tables == count_group(elements.deep_view(), 3),
        c.images == count_group(elements.deep_view(), 4),
        c.page_breaks == count_group(elements.deep_view(), 5),
        c.toc_blocks == count_group(elements.deep_view(), 6),
{
    let ghost els = elements.deep_view();
    let mut c = Counts { headings: 0, paragraphs: 0, lists: 0, tables: 0, images: 0, page_breaks: 0, toc_blocks: 0 };
    let mut i: usize = 0;
    while i < elements.len()
        invariant
            i <= elements.len() <= u32::MAX,
            els == elements.deep_view(),
            c.headings == count_group(els.take(i as int), 0),
            c.paragraphs == count_group(els.take(i as int), 1),
            c.lists == count_group(els.take(i as int), 2),
            c.tables == count_group(els.take(i as int), 3),
            c.images == count_group(els.take(i as int), 4),
            c.page_breaks == count_group(els.take(i as int), 5),
            c.toc_blocks == count_group(els.take(i as int), 6),
        decreases elements.len() - i,
    {
        let ghost t = els.take(i as int + 1);
        assert(t.drop_last() =~= els.take(i as int));
        assert(t.last() == elements[i as int].deep_view());
        proof {
            lemma_count_group_bound(els.take(i as int), 0);
            lemma_count_group_bound(els.take(i as int), 1);
            lemma_count_group_bound(els.take(i as int), 2);
            lemma_count_group_bound(els.take(i as int), 3);
            lemma_count_group_bound(els.take(i as int), 4);
            lemma_count_group_bound(els.take(i as int), 5);
            lemma_count_group_bound(els.take(i as int), 6);
        }
        let g = group_exec(&elements[i]);
        if g == 0 {
            c.headings += 1;
        } else if g == 1 {
            c.paragraphs += 1;
        } else if g == 2 {
            c.lists += 1;
        } else if g == 3 {
            c.tables += 1;
        } else if g == 4 {
            c.images += 1;
        } else if g == 5 {
            c.page_breaks += 1;
        } else {
            c.toc_blocks += 1;
        }
        i += 1;
    }
    assert(els.take(i as int) =~= els);
    c
}

// ── Texts ────────────────────────────────────────────────────────────────────

/// `s` cut to `max` characters, with `…` after a cut.
pub open spec fn truncated(s: Seq<char>, max: nat) -> Seq<char> {
    if s.len() <= max {
        s
    } else {
        s.take(max as int) + seq!['…']
    }
}

/// Cuts `s` to `max` characters, with `…` after a cut.
pub fn truncate(s: &str, max: usize) -> (r: String)
    ensures
        r@ == truncated(s@, max as nat),
{
    let v = crate::text::chars_of(s);
    if v.len() <= max {
        String::from_str(s)
    } else {
        let mut out = string_of(&v, 0, max);
        push_char(&mut out, '…');
        assert(v@.subrange(0, max as int) =~= v@.take(max as int));
        out
    }
}

/// `n` in decimal, padded on the left with spaces to three characters.
pub open spec fn pad3(n: nat) -> Seq<char> {
    let d = decimal(n);
    if d.len() < 3 {
        Seq::new((3 - d.len()) as nat, |i: int| ' ') + d
    } else {
        d
    }
}

/// The largest item level of a list, 0 for none.
pub open spec fn max_level(items: Seq<(u8, Seq<RunV>)>) -> u8
    decreases items.len(),
{
    if items.len() == 0 {
        0
    } else {
        let m = max_level(items.drop_last());
        if items.last().0 > m { items.last().0 } else { m }
    }
}

/// The first 50 bytes of a caption, when they end on a character boundary.
pub open spec fn caption_cut_at(c: Seq<char>, k: int) -> bool {
    0 <= k <= c.len() && utf8_len(c.take(k)) == 50
}

/// The caption preview is defined: the caption is at most 50 bytes long, or
/// its 50th byte ends a character.
pub open spec fn preview_defined(e: ElementV) -> bool {
    match e {
        ElementV::Table { caption: Some(c), .. } => utf8_len(c) <= 50 || exists|k: int| caption_cut_at(c, k),
        _ => true,
    }
}

/// A caption's preview: its first 50 bytes.
pub open spec fn preview(c: Seq<char>) -> Seq<char> {
    if utf8_len(c) <= 50 {
        c
    } else {
        c.take(choose|k: int| caption_cut_at(c, k))
    }
}

/// What the structure listing says of an element.
pub open spec fn summary_of(e: ElementV) -> Seq<char> {
    match e {
        ElementV::Heading { level, runs } => "H"@ + decimal(level as nat) + ": \""@ + runs_text(runs) + "\""@,
        ElementV::Paragraph { runs } => "Paragraph: \""@ + truncated(runs_text(runs), 60) + "\""@,
        ElementV::List { ordered, items } => "List ("@ + (if ordered { "ordered"@ } else { "unordered"@ })
            + ", level "@ + decimal(max_level(items) as nat) + "): "@ + decimal(items.len()) + " item(s)"@,
        ElementV::Table { rows, caption } => table_summary(rows, caption),
        ElementV::Image { path, .. } => "Image: "@ + path,
        ElementV::PageBreak => "PageBreak"@,
        ElementV::TocBlock => "TableOfContents (auto-generated)"@,
        ElementV::LofBlock => "ListOfFigures (auto-generated)"@,
        ElementV::LotBlock => "ListOfTables (auto-generated)"@,
    }
}

/// A table's rows and columns (those of its first row), and the preview of
/// its caption.
pub open spec fn table_summary(rows: Seq<Seq<Seq<RunV>>>, caption: Option<Seq<char>>) -> Seq<char> {
    let cols: nat = if rows.len() > 0 { rows[0].len() } else { 0 };
    let base = "Table: "@ + decimal(rows.len()) + " row(s) × "@ + decimal(cols) + " col(s)"@;
    match caption {
        Some(c) => base + " — \""@ + preview(c) + "\""@,
        None => base,
    }
}

/// The line of the structure listing for element `e` at position `idx`
/// (counted from 1).
pub open spec fn structure_line(idx: nat, e: ElementV) -> Seq<char> {
    "  ["@ + pad3(idx) + "] "@ + summary_of(e) + "\n"@
}

proof fn lemma_decimal_len(n: nat)
    ensures
        decimal(n).len() >= 1,
        n < 10 ==> decimal(n).len() == 1,
        10 <= n < 100 ==> decimal(n).len() == 2,
        n >= 100 ==> decimal(n).len() >= 3,
    decreases n,
{
    if n >= 10 {
        lemma_decimal_len(n / 10);
    }
}

fn push_pad3(out: &mut String, n: u64)
    ensures
        final(out)@ == old(out)@ + pad3(n as nat),
{
    proof { lemma_decimal_len(n as nat); }
    let ghost base = out@;
    if n < 10 {
        out.append("  ");
        proof { reveal_strlit("  "); }
        assert(Seq::new(2nat, |i: int| ' ') =~= "  "@);
    } else if n < 100 {
        push_char(out, ' ');
        assert(Seq::new(1nat, |i: int| ' ') =~= seq![' ']);
    }
    let ghost mid = out@;
    push_decimal(out, n);
    assert(out@ =~= base + pad3(n as nat));
}

fn max_level_exec(items: &Vec<(u8, Vec<Run>)>) -> (m: u8)
    ensures
        m == max_level(items.deep_view()),
{
    let mut m: u8 = 0;
    let mut i: usize = 0;
    while i < items.len()
        invariant
            i <= items.len(),
            m == max_level(items.deep_view().take(i as int)),
        decreases items.len() - i,
    {
        let ghost t = items.deep_view().take(i as int + 1);
        assert(t.drop_last() =~= items.deep_view().take(i as int));
        assert(t.last() == items[i as int].deep_view());
        if items[i].0 > m {
            m = items[i].0;
        }
        i += 1;
    }
    assert(items.deep_view().take(i as int) =~= items.deep_view());
    m
}

/// The caption's preview; `None` when its first 50 bytes do not end on a
/// character boundary.
fn preview_exec(c: &String) -> (r: Option<String>)
    ensures
        r is Some == preview_defined(ElementV::Table { rows: Seq::empty(), caption: Some(c@) }),
        r matches Some(p) ==> p@ == preview(c@),
{
    let v = crate::text::chars_of(c.as_str());
    if !crate::text::utf8_len_exceeds(&v, 50) {
        return Some(c.clone());
    }
    match char_index_at_byte(&v, 50) {
        Some(k) => {
            proof {
                assert(caption_cut_at(c@, k as int));
                let j = choose|j: int| caption_cut_at(c@, j);
                if j < k {
                    assert(c@.take(j + 1).drop_last() =~= c@.take(j));
                    crate::text::lemma_utf8_len_take_mono(c@, j + 1, k as int);
                } else if k < j {
                    assert(c@.take(k + 1).drop_last() =~= c@.take(k as int));
                    crate::text::lemma_utf8_len_take_mono(c@, k + 1, j);
                }
            }
            let p = string_of(&v, 0, k);
            assert(v@.subrange(0, k as int) =~= v@.take(k as int));
            Some(p)
        },
        None => None,
    }
}

fn push_text(out: &mut String, runs: &Vec<Run>)
    ensures
        final(out)@ == old(out)@ + runs_text(runs.deep_view()),
{
    let t = concat_runs(runs);
    let ts = string_of(&t, 0, t.len());
    assert(t@.subrange(0, t@.len() as int) =~= t@);
    out.append(ts.as_str());
}

fn push_table_summary(out: &mut String, rows: &Vec<Vec<Cell>>, caption: &Option<String>) -> (ok: bool)
    ensures
        ok == preview_defined(ElementV::Table { rows: rows.deep_view(), caption: opt_view(*caption) }),
        ok ==> final(out)@ == old(out)@ + table_summary(rows.deep_view(), opt_view(*caption)),
{
    let ghost start = out@;
    out.append("Table: ");
    push_decimal(out, rows.len() as u64);
    out.append(" row(s) × ");
    let cols: usize = if rows.len() > 0 { rows[0].len() } else { 0 };
    assert(rows.len() > 0 ==> rows.deep_view()[0].len() == rows[0].len());
    push_decimal(out, cols as u64);
    out.append(" col(s)");
    match caption {
        Some(c) => match preview_exec(c) {
            Some(p) => {
                out.append(" — \"");
                out.append(p.as_str());
                out.append("\"");
            },
            None => { return false; },
        },
        None => {},
    }
    assert(out@ =~= start + table_summary(rows.deep_view(), opt_view(*caption)));
    true
}

fn push_summary(out: &mut String, e: &Element) -> (ok: bool)
    ensures
        ok == preview_defined(e.deep_view()),
        ok ==> final(out)@ == old(out)@ + summary_of(e.deep_view()),
{
    let ghost start = out@;
    match e {
        Element::Heading { level, runs } => {
            out.append("H");
            push_decimal(out, *level as u64);
            out.append(": \"");
            push_text(out, runs);
            out.append("\"");
        },
        Element::Paragraph { runs } => {
            out.append("Paragraph: \"");
            let t = concat_runs(runs);
            let ts = string_of(&t, 0, t.len());
            assert(t@.subrange(0, t@.len() as int) =~= t@);
            let p = truncate(ts.as_str(), 60);
            out.append(p.as_str());
            out.append("\"");
        },
        Element::List { ordered, items } => {
            out.append("List (");
            if *ordered {
                out.append("ordered");
            } else {
                out.append("unordered");
            }
            out.append(", level ");
            push_decimal(out, max_level_exec(items) as u64);
            out.append("): ");
            push_decimal(out, items.len() as u64);
            out.append(" item(s)");
        },
        Element::Table { rows, caption } => {
            return push_table_summary(out, rows, caption);
        },
        Element::Image { path, .. } => {
            out.append("Image: ");
            out.append(path.as_str());
        },
        Element::PageBreak => { out.append("PageBreak"); },
        Element::TocBlock => { out.append("TableOfContents (auto-generated)"); },
        Element::LofBlock => { out.append("ListOfFigures (auto-generated)"); },
        Element::LotBlock => { out.append("ListOfTables (auto-generated)"); },
    }
    assert(out@ =~= start + summary_of(e.deep_view()));
    true
}

/// The line of the structure listing for an element at position `idx`
/// (counted from 1); `None` for a table whose caption preview is undefined.
pub fn structure_line_text(idx: u64, e: &Element) -> (r: Option<String>)
    ensures
        r is Some == preview_defined(e.deep_view()),
        r matches Some(s) ==> s@ == structure_line(idx as nat, e.deep_view()),
{
    let mut out = String::from_str("  [");
    push_pad3(&mut out, idx);
    out.append("] ");
    if !push_summary(&mut out, e) {
        return None;
    }
    out.append("\n");
    Some(out)
}

/// The structure listing: one line per element, numbered from 1.
pub open spec fn structure_text(els: Seq<ElementV>) -> Seq<char>
    decreases els.len(),
{
    if els.len() == 0 {
        Seq::empty()
    } else {
        structure_text(els.drop_last()) + structure_line(els.len(), els.last())
    }
}

/// A line of the summary: a label and a count.
pub open spec fn count_line(label: Seq<char>, n: nat) -> Seq<char> {
    label + decimal(n) + "\n"@
}

/// The whole report on a document: the title, the counts of each group (the
/// generated lists only when there are some), then the structure listing.
pub open spec fn report_text(d: DocumentV) -> Seq<char> {
    let els = d.elements;
    "Document Summary\n================\n"@
        + match d.title {
            Some(t) => "  Title      : "@ + t + "\n"@,
            None => Seq::empty(),
        }
        + count_line("  Headings   : "@, count_group(els, 0))
        + count_line("  Paragraphs : "@, count_group(els, 1))
        + count_line("  Lists      : "@, count_group(els, 2))
        + count_line("  Tables     : "@, count_group(els, 3))
        + count_line("  Images     : "@, count_group(els, 4))
        + count_line("  Page breaks: "@, count_group(els, 5))
        + (if count_group(els, 6) > 0 { count_line("  TOC blocks : "@, count_group(els, 6)) } else { Seq::empty() })
        + "\nStructure\n---------\n"@
        + structure_text(els)
}

/// Every table caption preview of the document is defined.
pub open spec fn report_defined(d: DocumentV) -> bool {
    forall|i: int| 0 <= i < d.elements.len() ==> preview_defined(#[trigger] d.elements[i])
}

fn push_count_line(out: &mut String, label: &str, n: u32)
    ensures
        final(out)@ == old(out)@ + count_line(label@, n as nat),
{
    let ghost base = out@;
    out.append(label);
    push_decimal(out, n as u64);
    out.append("\n");
    assert(out@ =~= base + count_line(label@, n as nat));
}

/// The report `validate` prints on a parsed document; `None` when a table
/// caption preview is undefined (its 50th byte falls inside a character).
pub fn validation_report(doc: &Document) -> (r: Option<String>)
    requires
        doc.elements.len() <= u32::MAX,
    ensures
        r is Some == report_defined(doc.deep_view()),
        r matches Some(s) ==> s@ == report_text(doc.deep_view()),
{
    let ghost d = doc.deep_view();
    let c = count_elements(&doc.elements);
    let mut out = String::from_str("Document Summary\n================\n");
    match &doc.title {
        Some(t) => {
            out.append("  Title      : ");
            out.append(t.as_str());
            out.append("\n");
        },
        None => {},
    }
    push_count_line(&mut out, "  Headings   : ", c.headings);
    push_count_line(&mut out, "  Paragraphs : ", c.paragraphs);
    push_count_line(&mut out, "  Lists      : ", c.lists);
    push_count_line(&mut out, "  Tables     : ", c.tables);
    push_count_line(&mut out, "  Images     : ", c.images);
    push_count_line(&mut out, "  Page breaks: ", c.page_breaks);
    if c.toc_blocks > 0 {
        push_count_line(&mut out, "  TOC blocks : ", c.toc_blocks);
    }
    out.append("\nStructure\n---------\n");
    let ghost base = out@;
    let mut i: usize = 0;
    assert(d.elements.take(0) =~= Seq::<ElementV>::empty());
    while i < doc.elements.len()
        invariant
            i <= doc.elements.len() <= u32::MAX,
            d == doc.deep_view(),
            out@ == base + structure_text(d.elements.take(i as int)),
            forall|j: int| 0 <= j < i ==> preview_defined(#[trigger] d.elements[j]),
        decreases doc.elements.len() - i,
    {
        let ghost t = d.elements.take(i as int + 1);
        assert(t.drop_last() =~= d.elements.take(i as int));
        assert(t.last() == doc.elements[i as int].deep_view());
        match structure_line_text((i + 1) as u64, &doc.elements[i]) {
            Some(line) => {
                out.append(line.as_str());
            },
            None => {
                return None;
            },
        }
        i += 1;
        assert(out@ =~= base + structure_text(d.elements.take(i as int)));
    }
    assert(d.elements.take(i as int) =~= d.elements);
    Some(out)
}

/// The line `convert` prints after parsing: the number of block elements,
/// with a plural `s` unless there is exactly one.
pub open spec fn parsed_line(n: nat) -> Seq<char> {
    "  Parsed "@ + decimal(n) + " block element"@ + (if n == 1 { Seq::empty() } else { "s"@ }) + "."@
}

pub fn parsed_message(n: usize) -> (r: String)
    ensures
        r@ == parsed_line(n as nat),
{
    let mut out = String::from_str("  Parsed ");
    push_decimal(&mut out, n as u64);
    out.append(" block element");
    if n != 1 {
        out.append("s");
    }
    out.append(".");
    out
}

/// Cutting a text keeps it whole when it fits; otherwise it keeps the first
/// `max` characters and marks the cut with one ellipsis, so the result is
/// never longer than `max` plus the mark.
pub proof fn lemma_truncated(s: Seq<char>, max: nat)
    ensures
        s.len() <= max ==> truncated(s, max) == s,
        s.len() > max ==> truncated(s, max).len() == max + 1 && truncated(s, max).take(max as int) == s.take(
            max as int,
        ) && truncated(s, max).last() == '\u{2026}',
        truncated(s, max).len() <= max + 1,
{
    if s.len() > max {
        assert((s.take(max as int) + seq!['\u{2026}']).take(max as int) =~= s.take(max as int));
    }
}

/// Each kind of element is counted under its own label: headings,
/// paragraphs, lists, tables, images and page breaks each in their group,
/// and the generated contents, figure and table lists together.
pub proof fn lemma_report_groups(e: ElementV)
    ensures
        (group_of(e) == 0) == (e is Heading),
        (group_of(e) == 1) == (e is Paragraph),
        (group_of(e) == 2) == (e is List),
        (group_of(e) == 3) == (e is Table),
        (group_of(e) == 4) == (e is Image),
        (group_of(e) == 5) == (e is PageBreak),
        (group_of(e) == 6) == (e is TocBlock || e is LofBlock || e is LotBlock),
{
}

/// The structure listing shows a heading's level and whole text, a
/// paragraph's text cut to 60 characters, a list's kind and item count, and
/// an image's path.
pub proof fn lemma_structure_summaries(e: ElementV)
    ensures
        e matches ElementV::Heading { level, runs } ==> summary_of(e) == "H"@ + decimal(level as nat) + ": \""@
            + runs_text(runs) + "\""@,
        e matches ElementV::Paragraph { runs } ==> summary_of(e) == "Paragraph: \""@ + truncated(runs_text(runs), 60)
            + "\""@,
        e matches ElementV::List { ordered, items } ==> contains_kind(summary_of(e), ordered) && ends_with_count(
            summary_of(e),
            items.len(),
        ),
        e matches ElementV::Image { path, .. } ==> summary_of(e) == "Image: "@ + path,
{
    match e {
        ElementV::List { ordered, items } => {
            let k = if ordered { "ordered"@ } else { "unordered"@ };
            let t = summary_of(e);
            let pre = "List ("@;
            assert(t == pre + k + ", level "@ + decimal(max_level(items) as nat) + "): "@ + decimal(items.len())
                + " item(s)"@);
            let head = pre + k + ", "@;
            reveal_strlit(", level ");
            reveal_strlit(", ");
            assert(", level "@.take(2) =~= ", "@);
            assert(t.take(head.len() as int) =~= head);
            let tail = decimal(items.len()) + " item(s)"@;
            assert(t.skip(t.len() - tail.len()) =~= tail);
        },
        _ => {},
    }
}

/// A list's summary begins by naming its kind.
pub open spec fn contains_kind(t: Seq<char>, ordered: bool) -> bool {
    crate::text::starts_with(t, "List ("@ + (if ordered { "ordered"@ } else { "unordered"@ }) + ", "@)
}

/// A list's summary ends with its item count.
pub open spec fn ends_with_count(t: Seq<char>, n: nat) -> bool {
    crate::text::ends_with(t, decimal(n) + " item(s)"@)
}

} // verus!
