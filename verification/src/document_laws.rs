//! What the body parser guarantees of every document it produces, and what
//! each of its steps keeps.
use vstd::prelude::*;
use crate::model::{ElementV, RunV, runs_text};
use crate::xml::{XmlAttrV, XmlEventV, xml_unescaped};
use crate::document_xml::{
    ParseV, ParseContextV, initial, step, step_defined, finish, run_events, end_paragraph, para_flushed,
    end_step, space_run, para_heading, is_list_item, list_breaks, is_body_paragraph, is_title_line,
    title_cut_at, block_start, is_para_property, run_start, is_run_property, is_block_tag, is_run_tag, is_toggle,
    toggle_step, is_mono_font, any_mono_font, resolve_style, para_end_defined,
};
use crate::docx::{local_name, style_heading_level, truthy, attr_has, attr_value, attr_uint, lookup, list_is_ordered};
use crate::text::{trim, contains, unicode_lowercase};

verus! {

broadcast use vstd::string::group_string_axioms;

/// Every run has some text.
pub open spec fn text_runs(runs: Seq<RunV>) -> bool {
    forall|i: int| 0 <= i < runs.len() ==> (#[trigger] runs[i]).text.len() > 0
}

/// An element as the body parser produces it: a heading of level 1 to 4, a
/// paragraph, a non-empty list, a non-empty table of non-empty rows without
/// a caption, an image or a page break, with no run lacking text.
pub open spec fn parsed_element(e: ElementV) -> bool {
    match e {
        ElementV::Heading { level, runs } => 1 <= level <= 4 && text_runs(runs),
        ElementV::Paragraph { runs } => text_runs(runs),
        ElementV::List { items, .. } => items.len() > 0 && forall|i: int| 0 <= i < items.len() ==> text_runs(
            #[trigger] items[i].1,
        ),
        ElementV::Table { rows, caption } => rows.len() > 0 && caption is None && forall|i: int|
            0 <= i < rows.len() ==> (#[trigger] rows[i]).len() > 0 && forall|j: int|
                0 <= j < rows[i].len() ==> text_runs(#[trigger] rows[i][j]),
        ElementV::Image { .. } => true,
        ElementV::PageBreak => true,
        _ => false,
    }
}

pub open spec fn parsed_elements(els: Seq<ElementV>) -> bool {
    forall|i: int| 0 <= i < els.len() ==> parsed_element(#[trigger] els[i])
}

/// What every state of the parser keeps.
pub open spec fn parser_inv(s: ParseV) -> bool {
    &&& parsed_elements(s.elements)
    &&& forall|i: int| 0 <= i < s.pending_images.len() ==> (#[trigger] s.pending_images[i]) is Image
    &&& text_runs(s.para_runs)
    &&& text_runs(s.cell_runs)
    &&& forall|i: int| 0 <= i < s.list_items.len() ==> text_runs(#[trigger] s.list_items[i].1)
    &&& forall|i: int| 0 <= i < s.table_rows.len() ==> (#[trigger] s.table_rows[i]).len() > 0 && forall|j: int|
        0 <= j < s.table_rows[i].len() ==> text_runs(#[trigger] s.table_rows[i][j])
    &&& forall|i: int| 0 <= i < s.current_row.len() ==> text_runs(#[trigger] s.current_row[i])
    &&& s.title matches Some(t) ==> t.len() > 0
}

proof fn lemma_style_level(name: Seq<char>)
    ensures
        style_heading_level(name) matches Some(l) ==> 1 <= l <= 4,
{
}

proof fn lemma_text_runs_push(runs: Seq<RunV>, r: RunV)
    requires
        text_runs(runs),
        r.text.len() > 0,
    ensures
        text_runs(runs.push(r)),
{
    assert forall|i: int| 0 <= i < runs.push(r).len() implies (#[trigger] runs.push(r)[i]).text.len() > 0 by {
        if i < runs.len() {
            assert(runs.push(r)[i] == runs[i]);
        }
    }
}

proof fn lemma_text_runs_concat(a: Seq<RunV>, b: Seq<RunV>)
    requires
        text_runs(a),
        text_runs(b),
    ensures
        text_runs(a + b),
{
    assert forall|i: int| 0 <= i < (a + b).len() implies (#[trigger] (a + b)[i]).text.len() > 0 by {
        if i < a.len() {
            assert((a + b)[i] == a[i]);
        } else {
            assert((a + b)[i] == b[i - a.len()]);
        }
    }
}

proof fn lemma_elements_push(els: Seq<ElementV>, e: ElementV)
    requires
        parsed_elements(els),
        parsed_element(e),
    ensures
        parsed_elements(els.push(e)),
{
    assert forall|i: int| 0 <= i < els.push(e).len() implies parsed_element(#[trigger] els.push(e)[i]) by {
        if i < els.len() {
            assert(els.push(e)[i] == els[i]);
        }
    }
}

proof fn lemma_elements_images(els: Seq<ElementV>, imgs: Seq<ElementV>)
    requires
        parsed_elements(els),
        forall|i: int| 0 <= i < imgs.len() ==> (#[trigger] imgs[i]) is Image,
    ensures
        parsed_elements(els + imgs),
{
    assert forall|i: int| 0 <= i < (els + imgs).len() implies parsed_element(#[trigger] (els + imgs)[i]) by {
        if i < els.len() {
            assert((els + imgs)[i] == els[i]);
        } else {
            assert((els + imgs)[i] == imgs[i - els.len()]);
        }
    }
}

proof fn lemma_para_flushed_inv(s: ParseV)
    requires
        parser_inv(s),
    ensures
        parser_inv(para_flushed(s)),
        para_flushed(s).title == s.title,
{
    lemma_elements_images(s.elements, s.pending_images);
    if list_breaks(s) {
        let l = ElementV::List { ordered: s.list_ordered, items: s.list_items };
        assert(parsed_element(l));
        lemma_elements_push(s.elements + s.pending_images, l);
    }
    let f = para_flushed(s);
    assert(text_runs(f.para_runs));
    assert(f.pending_images.len() == 0);
}

proof fn lemma_end_paragraph_inv(s: ParseV)
    requires
        parser_inv(s),
        is_body_paragraph(s) && is_title_line(s, s.para_runs) ==> exists|k: int| title_cut_at(
            trim(runs_text(s.para_runs)),
            k,
        ),
    ensures
        parser_inv(end_paragraph(s)),
{
    lemma_para_flushed_inv(s);
    let runs = s.para_runs;
    let s2 = para_flushed(s);
    match para_heading(s) {
        Some(level) => {
            lemma_style_level(s.para_style->0);
            lemma_elements_push(s2.elements, ElementV::Heading { level, runs });
        },
        None => if is_list_item(s) {
            let l = s2.list_items.push((s2.list_level, runs));
            assert forall|i: int| 0 <= i < l.len() implies text_runs(#[trigger] l[i].1) by {
                if i < s2.list_items.len() {
                    assert(l[i] == s2.list_items[i]);
                }
            }
        } else if s2.in_cell {
            if runs.len() > 0 {
                if s2.cell_runs.len() > 0 {
                    assert(space_run().text.len() == 1);
                    lemma_text_runs_push(s2.cell_runs, space_run());
                    lemma_text_runs_concat(s2.cell_runs.push(space_run()), runs);
                } else {
                    lemma_text_runs_concat(s2.cell_runs, runs);
                }
            }
        } else if is_body_paragraph(s) {
            if !is_title_line(s2, runs) {
                lemma_elements_push(s2.elements, ElementV::Paragraph { runs });
            }
        },
    }
}

proof fn lemma_end_step_inv(s: ParseV, l: Seq<char>)
    requires
        parser_inv(s),
        l == "p"@ ==> (is_body_paragraph(s) && is_title_line(s, s.para_runs) ==> exists|k: int| title_cut_at(
            trim(runs_text(s.para_runs)),
            k,
        )),
    ensures
        parser_inv(end_step(s, l)),
{
    if l == "p"@ {
        lemma_end_paragraph_inv(s);
    } else if l == "r"@ {
        if s.run.text.len() > 0 && s.in_cell {
            lemma_text_runs_push(s.cell_runs, s.run);
        } else if s.run.text.len() > 0 && !s.in_table {
            lemma_text_runs_push(s.para_runs, s.run);
        }
    } else if l == "tc"@ {
        let r = s.current_row.push(s.cell_runs);
        assert forall|i: int| 0 <= i < r.len() implies text_runs(#[trigger] r[i]) by {
            if i < s.current_row.len() {
                assert(r[i] == s.current_row[i]);
            }
        }
    } else if l == "tr"@ {
        if s.current_row.len() > 0 {
            let t = s.table_rows.push(s.current_row);
            assert forall|i: int| 0 <= i < t.len() implies (#[trigger] t[i]).len() > 0 && forall|j: int|
                0 <= j < t[i].len() ==> text_runs(#[trigger] t[i][j]) by {
                if i < s.table_rows.len() {
                    assert(t[i] == s.table_rows[i]);
                }
            }
        }
    } else if l == "tbl"@ {
        if s.table_rows.len() > 0 {
            lemma_elements_push(s.elements, ElementV::Table { rows: s.table_rows, caption: None });
        }
    } else if l == "drawing"@ {
        if s.in_drawing && s.drawing.path is Some {
            let img = ElementV::Image {
                path: s.drawing.path->0,
                width_emu: s.drawing.width_emu,
                caption: s.drawing.caption,
            };
            let p = s.pending_images.push(img);
            assert forall|i: int| 0 <= i < p.len() implies (#[trigger] p[i]) is Image by {
                if i < s.pending_images.len() {
                    assert(p[i] == s.pending_images[i]);
                }
            }
        }
    }
}

proof fn lemma_block_start_inv(s: ParseV, l: Seq<char>, attrs: Seq<XmlAttrV>, ctx: ParseContextV)
    requires
        parser_inv(s),
    ensures
        parser_inv(block_start(s, l, attrs, ctx)),
{
    if l == "p"@ {
        assert(text_runs(Seq::<RunV>::empty()));
    }
}

proof fn lemma_run_start_inv(s: ParseV, l: Seq<char>, attrs: Seq<XmlAttrV>)
    requires
        parser_inv(s),
    ensures
        parser_inv(run_start(s, l, attrs)),
{
}

/// Every defined step keeps the parser's invariant.
#[verifier::rlimit(40)]
pub proof fn lemma_step_keeps_invariant(s: ParseV, ev: XmlEventV, ctx: ParseContextV)
    requires
        parser_inv(s),
        step_defined(s, ev),
    ensures
        parser_inv(step(s, ev, ctx)),
{
    match ev {
        XmlEventV::Empty { name, attrs } => {
            if local_name(name) == "br"@ {
                lemma_elements_push(s.elements, ElementV::PageBreak);
            } else if is_para_property(local_name(name)) {
                lemma_block_start_inv(s, local_name(name), attrs, ctx);
            } else if is_run_property(local_name(name)) {
                lemma_run_start_inv(s, local_name(name), attrs);
            }
        },
        XmlEventV::End { name } => {
            lemma_end_step_inv(s, local_name(name));
        },
        _ => {},
    }
}

/// Once a title is set, no step changes it.
pub proof fn lemma_title_is_kept(s: ParseV, ev: XmlEventV, ctx: ParseContextV)
    requires
        s.title is Some,
    ensures
        step(s, ev, ctx).title == s.title,
{
}

proof fn lemma_run_keeps_invariant(s: ParseV, evs: Seq<XmlEventV>, ctx: ParseContextV)
    requires
        parser_inv(s),
    ensures
        run_events(s, evs, ctx) matches Some(Ok(d)) ==> parsed_elements(d.elements) && (d.title matches Some(
            t,
        ) ==> t.len() > 0),
    decreases evs.len(),
{
    if evs.len() == 0 || evs[0] is Eof {
        lemma_finish_parsed(s);
    } else if !(evs[0] is Error) && step_defined(s, evs[0]) {
        lemma_step_keeps_invariant(s, evs[0], ctx);
        lemma_run_keeps_invariant(step(s, evs[0], ctx), evs.drop_first(), ctx);
    }
}

proof fn lemma_finish_parsed(s: ParseV)
    requires
        parser_inv(s),
    ensures
        parsed_elements(finish(s).elements),
        finish(s).title matches Some(t) ==> t.len() > 0,
{
    if s.list_items.len() > 0 {
        lemma_elements_push(s.elements, ElementV::List { ordered: s.list_ordered, items: s.list_items });
    }
}

/// Every document the body parser produces is well formed: headings have
/// levels 1 to 4, lists and tables are not empty, table rows are not empty,
/// tables have no caption yet, no run lacks text, only headings, paragraphs,
/// lists, tables, images and page breaks occur, and a title is never empty.
pub proof fn lemma_parsed_document_well_formed(evs: Seq<XmlEventV>, ctx: ParseContextV)
    ensures
        run_events(initial(), evs, ctx) matches Some(Ok(d)) ==> parsed_elements(d.elements) && (d.title matches Some(
            t,
        ) ==> t.len() > 0),
{
    assert(parsed_elements(initial().elements));
    lemma_run_keeps_invariant(initial(), evs, ctx);
}

/// The run a toggle tag named `l` leaves: bold, italic or underline (for
/// `b`, `i`, `u`) set to whether the tag is on, every other property kept.
pub open spec fn toggled_run(r: RunV, l: Seq<char>, on: bool) -> RunV {
    RunV {
        bold: if l == "b"@ { on } else { r.bold },
        italic: if l == "i"@ { on } else { r.italic },
        underline: if l == "u"@ { on } else { r.underline },
        ..r
    }
}

/// Inside a run, a `<w:b>`, `<w:i>` or `<w:u>` property tag, written as a
/// start tag or as an empty-element tag, sets the run's bold, italic or
/// underline flag to whether the tag is on (`truthy`: no `val`, or one that
/// is not 0, false or off) and changes nothing else; outside a run it
/// changes nothing.
pub proof fn lemma_toggle_tags(s: ParseV, name: Seq<char>, attrs: Seq<XmlAttrV>, ctx: ParseContextV)
    requires
        local_name(name) == "b"@ || local_name(name) == "i"@ || local_name(name) == "u"@,
    ensures
        step(s, XmlEventV::Start { name, attrs }, ctx) == (if s.in_run {
            ParseV { run: toggled_run(s.run, local_name(name), truthy(attrs)), ..s }
        } else {
            s
        }),
        step(s, XmlEventV::Empty { name, attrs }, ctx) == (if s.in_run {
            ParseV { run: toggled_run(s.run, local_name(name), truthy(attrs)), ..s }
        } else {
            s
        }),
{
    let l = local_name(name);
    reveal_strlit("b");
    reveal_strlit("i");
    reveal_strlit("u");
    reveal_strlit("br");
    reveal_strlit("tab");
    reveal_strlit("tbl");
    reveal_strlit("tr");
    reveal_strlit("tc");
    reveal_strlit("p");
    reveal_strlit("pStyle");
    reveal_strlit("numPr");
    reveal_strlit("ilvl");
    reveal_strlit("numId");
    reveal_strlit("r");
    if l == "b"@ {
        assert(l[0] == 'b');
    } else if l == "i"@ {
        assert(l[0] == 'i');
    } else {
        assert(l[0] == 'u');
    }
    assert(l.len() == 1);
    assert(l != "r"@ && l != "p"@ && l != "tr"@ && l != "tc"@ && l != "tbl"@) by {
        assert("r"@[0] == 'r' && "p"@[0] == 'p');
    }
    assert(!is_block_tag(l));
    assert(is_run_tag(l));
    assert(is_toggle(l));
    assert(l != "br"@ && l != "tab"@);
    assert(step(s, XmlEventV::Start { name, attrs }, ctx) == toggle_step(s, l, attrs));
    assert(step(s, XmlEventV::Empty { name, attrs }, ctx) == toggle_step(s, l, attrs));
    if s.in_run {
        let r = toggled_run(s.run, l, truthy(attrs));
        if l == "b"@ {
            assert(r == RunV { bold: truthy(attrs), ..s.run });
        } else if l == "i"@ {
            assert(r == RunV { italic: truthy(attrs), ..s.run });
        } else {
            assert(r == RunV { underline: truthy(attrs), ..s.run });
        }
    }
}

/// Inside a run, a line break `<w:br/>` or a tab `<w:tab/>` adds one space
/// to the run's text; a page break `<w:br w:type="page"/>` adds a page break
/// after the elements so far, in a run or not.  Outside a run a line break
/// or a tab changes nothing.
pub proof fn lemma_breaks_and_tabs(s: ParseV, name: Seq<char>, attrs: Seq<XmlAttrV>, ctx: ParseContextV)
    requires
        local_name(name) == "br"@ || local_name(name) == "tab"@,
    ensures
        local_name(name) == "br"@ && attr_has(attrs, "type"@, "page"@) ==> step(
            s,
            XmlEventV::Empty { name, attrs },
            ctx,
        ) == (ParseV { elements: s.elements.push(ElementV::PageBreak), ..s }),
        !(local_name(name) == "br"@ && attr_has(attrs, "type"@, "page"@)) && s.in_run ==> step(
            s,
            XmlEventV::Empty { name, attrs },
            ctx,
        ) == (ParseV { run: RunV { text: s.run.text.push(' '), ..s.run }, ..s }),
        !(local_name(name) == "br"@ && attr_has(attrs, "type"@, "page"@)) && !s.in_run ==> step(
            s,
            XmlEventV::Empty { name, attrs },
            ctx,
        ) == s,
{
    reveal_strlit("br");
    reveal_strlit("tab");
    assert("br"@.len() == 2 && "tab"@.len() == 3);
}

/// Inside a run, `<w:vertAlign w:val="superscript">` makes the run
/// superscript and `w:val="subscript"` subscript, written either way; and an
/// `<w:rFonts>` naming a monospace font (Courier, Consolas, any "mono" or
/// "typewriter" face, in any case) makes the run monospace.  Nothing else
/// changes.
pub proof fn lemma_run_property_tags(s: ParseV, name: Seq<char>, attrs: Seq<XmlAttrV>, ctx: ParseContextV, empty: bool)
    requires
        local_name(name) == "vertAlign"@ || local_name(name) == "rFonts"@,
    ensures
        local_name(name) == "vertAlign"@ && s.in_run ==> step(s, XmlEventV::Start { name, attrs }, ctx) == (ParseV {
            run: RunV {
                superscript: s.run.superscript || attr_has(attrs, "val"@, "superscript"@),
                subscript: s.run.subscript || attr_has(attrs, "val"@, "subscript"@),
                ..s.run
            },
            ..s
        }),
        local_name(name) == "vertAlign"@ ==> step(s, XmlEventV::Empty { name, attrs }, ctx) == step(
            s,
            XmlEventV::Start { name, attrs },
            ctx,
        ),
        local_name(name) == "rFonts"@ ==> step(s, XmlEventV::Start { name, attrs }, ctx) == (if any_mono_font(attrs) {
            ParseV { run: RunV { mono: true, ..s.run }, ..s }
        } else {
            s
        }),
        local_name(name) == "rFonts"@ ==> step(s, XmlEventV::Empty { name, attrs }, ctx) == step(
            s,
            XmlEventV::Start { name, attrs },
            ctx,
        ),
        forall|v: Seq<char>| #![trigger is_mono_font(v)] (contains(unicode_lowercase(v), "courier"@) || contains(
            unicode_lowercase(v),
            "consolas"@,
        ) || contains(unicode_lowercase(v), "mono"@) || contains(unicode_lowercase(v), "typewriter"@))
            ==> is_mono_font(v),
{
    reveal_strlit("vertAlign");
    reveal_strlit("rFonts");
    reveal_strlit("b");
    reveal_strlit("i");
    reveal_strlit("u");
    reveal_strlit("r");
    reveal_strlit("br");
    reveal_strlit("tab");
    reveal_strlit("tbl");
    reveal_strlit("tr");
    reveal_strlit("tc");
    reveal_strlit("p");
    reveal_strlit("pStyle");
    reveal_strlit("numPr");
    reveal_strlit("ilvl");
    reveal_strlit("numId");
    let l = local_name(name);
    assert(l.len() == 9 || l.len() == 6);
    assert(l.len() == 6 ==> l[0] == 'r');
    assert("pStyle"@.len() == 6 && "pStyle"@[0] == 'p');
    assert("tbl"@.len() == 3 && "tr"@.len() == 2 && "tc"@.len() == 2 && "p"@.len() == 1);
    assert("numPr"@.len() == 5 && "ilvl"@.len() == 4 && "numId"@.len() == 5 && "r"@.len() == 1);
    assert("b"@.len() == 1 && "i"@.len() == 1 && "u"@.len() == 1 && "br"@.len() == 2 && "tab"@.len() == 3);
    assert(!is_block_tag(l));
    assert(!is_toggle(l));
    assert(l != "r"@);
    assert(l != "br"@ && l != "tab"@);
    assert(!is_para_property(l));
    assert(is_run_property(l));
}

/// A paragraph style is resolved through the style table: `<w:pStyle
/// w:val="id">`, written either way, makes the paragraph's style the name
/// that the table gives `id` (the last entry for it), or `id` itself when
/// the table has none.
pub proof fn lemma_paragraph_style_tag(s: ParseV, name: Seq<char>, attrs: Seq<XmlAttrV>, ctx: ParseContextV, id: Seq<char>)
    requires
        local_name(name) == "pStyle"@,
        attr_value(attrs, "val"@) == Some(id),
    ensures
        step(s, XmlEventV::Start { name, attrs }, ctx) == (ParseV {
            para_style: Some(
                match lookup(ctx.styles, id) {
                    Some(n) => n,
                    None => id,
                },
            ),
            ..s
        }),
        step(s, XmlEventV::Empty { name, attrs }, ctx) == step(s, XmlEventV::Start { name, attrs }, ctx),
{
    reveal_strlit("pStyle");
    reveal_strlit("b");
    reveal_strlit("i");
    reveal_strlit("u");
    reveal_strlit("br");
    reveal_strlit("tab");
    reveal_strlit("tbl");
    reveal_strlit("tr");
    reveal_strlit("tc");
    reveal_strlit("p");
    let l = local_name(name);
    assert(l.len() == 6);
    assert("tbl"@.len() == 3 && "tr"@.len() == 2 && "tc"@.len() == 2 && "p"@.len() == 1);
    assert("b"@.len() == 1 && "i"@.len() == 1 && "u"@.len() == 1 && "br"@.len() == 2 && "tab"@.len() == 3);
    assert(l != "tbl"@ && l != "tr"@ && l != "tc"@ && l != "p"@);
    assert(l != "br"@ && l != "tab"@ && !is_toggle(l));
    assert(is_block_tag(l) && is_para_property(l));
}

/// A paragraph whose style names a heading level ends as a heading of that
/// level holding the paragraph's runs, the last element so far; a level-1
/// heading with text sets the document title when none is set yet.
pub proof fn lemma_styled_paragraph_is_heading(s: ParseV, k: u8)
    requires
        para_heading(s) == Some(k),
    ensures
        end_paragraph(s).elements.last() == (ElementV::Heading { level: k, runs: s.para_runs }),
        end_paragraph(s).elements.len() > 0,
        k == 1 && s.title is None && runs_text(s.para_runs).len() > 0 ==> end_paragraph(s).title == Some(
            runs_text(s.para_runs),
        ),
        s.title is Some ==> end_paragraph(s).title == s.title,
{
    lemma_para_flushed_title(s);
}

proof fn lemma_para_flushed_title(s: ParseV)
    ensures
        para_flushed(s).title == s.title,
{
}

/// A list item continues the open list when its list id is the open list's:
/// it is added after the items so far, at its level, and no list is written
/// out.
pub proof fn lemma_list_item_continues(s: ParseV)
    requires
        is_list_item(s),
        s.list_items.len() > 0,
        s.active_numid == s.list_numid,
    ensures
        end_paragraph(s).list_items == s.list_items.push((s.list_level, s.para_runs)),
        end_paragraph(s).elements == s.elements + s.pending_images,
        end_paragraph(s).list_ordered == s.active_ordered,
{
}

/// A list item with another list id closes the open list: the open list is
/// written out with its own items and numbering kind, and a new list starts
/// with this item, numbered as its own list id says.
pub proof fn lemma_list_item_starts_new_list(s: ParseV)
    requires
        is_list_item(s),
        s.list_items.len() > 0,
        s.active_numid != s.list_numid,
    ensures
        end_paragraph(s).elements == (s.elements + s.pending_images).push(
            ElementV::List { ordered: s.list_ordered, items: s.list_items },
        ),
        end_paragraph(s).list_items == seq![(s.list_level, s.para_runs)],
        end_paragraph(s).list_ordered == s.active_ordered,
        end_paragraph(s).list_numid == s.active_numid,
{
    assert(Seq::<(u8, Seq<RunV>)>::empty().push((s.list_level, s.para_runs)) =~= seq![(s.list_level, s.para_runs)]);
}

/// A paragraph that is no list item closes the open list, which is written
/// out with its items and numbering kind before anything the paragraph
/// becomes.
pub proof fn lemma_other_paragraph_ends_list(s: ParseV)
    requires
        !is_list_item(s),
        s.list_items.len() > 0,
    ensures
        end_paragraph(s).list_items.len() == 0,
        end_paragraph(s).elements.len() > (s.elements + s.pending_images).len(),
        end_paragraph(s).elements[(s.elements + s.pending_images).len() as int] == (ElementV::List {
            ordered: s.list_ordered,
            items: s.list_items,
        }),
        end_paragraph(s).elements.take((s.elements + s.pending_images).len() as int) == s.elements + s.pending_images,
{
    let base = s.elements + s.pending_images;
    let l = ElementV::List { ordered: s.list_ordered, items: s.list_items };
    let f = para_flushed(s);
    assert(f.elements == base.push(l));
    let e = end_paragraph(s).elements;
    assert(e.len() >= f.elements.len());
    assert(e.take(f.elements.len() as int) =~= f.elements) by {
        if e.len() > f.elements.len() {
            assert(e.drop_last() =~= f.elements);
        }
    }
    assert(e[base.len() as int] == e.take(f.elements.len() as int)[base.len() as int]);
    assert(e.take(base.len() as int) =~= f.elements.take(base.len() as int));
    assert(f.elements.take(base.len() as int) =~= base);
}

/// A `<w:numId w:val="n">` tag, written either way, makes `n` the paragraph's
/// list id and takes the numbering kind (numbered or bulleted) that the
/// numbering definitions give `n`.
pub proof fn lemma_list_id_tag(s: ParseV, name: Seq<char>, attrs: Seq<XmlAttrV>, ctx: ParseContextV, n: nat)
    requires
        local_name(name) == "numId"@,
        attr_uint(attrs, "val"@, u32::MAX as nat) == Some(n),
    ensures
        step(s, XmlEventV::Start { name, attrs }, ctx) == (ParseV {
            active_numid: Some(n as u32),
            active_ordered: list_is_ordered(ctx.numbering, n as u32),
            ..s
        }),
        step(s, XmlEventV::Empty { name, attrs }, ctx) == step(s, XmlEventV::Start { name, attrs }, ctx),
{
    reveal_strlit("numId");
    reveal_strlit("b");
    reveal_strlit("i");
    reveal_strlit("u");
    reveal_strlit("br");
    reveal_strlit("tab");
    reveal_strlit("tbl");
    reveal_strlit("tr");
    reveal_strlit("tc");
    reveal_strlit("p");
    reveal_strlit("pStyle");
    reveal_strlit("numPr");
    reveal_strlit("ilvl");
    let l = local_name(name);
    assert(l.len() == 5);
    assert("tbl"@.len() == 3 && "tr"@.len() == 2 && "tc"@.len() == 2 && "p"@.len() == 1);
    assert("b"@.len() == 1 && "i"@.len() == 1 && "u"@.len() == 1 && "br"@.len() == 2 && "tab"@.len() == 3);
    assert("pStyle"@.len() == 6 && "ilvl"@.len() == 4);
    assert(l[0] == 'n' && l[3] == 'I' && "numPr"@[3] == 'P');
    assert(l != "numPr"@);
    assert(l != "tbl"@ && l != "tr"@ && l != "tc"@ && l != "p"@ && l != "pStyle"@ && l != "ilvl"@);
    assert(l != "br"@ && l != "tab"@ && !is_toggle(l));
    assert(is_block_tag(l) && is_para_property(l));
}

/// Character data inside `<w:t>` within a run is appended to the run's text
/// with its character and entity references replaced (text whose references
/// are malformed adds nothing); character data anywhere else is ignored.
pub proof fn lemma_text_goes_to_run(s: ParseV, raw: Seq<char>, ctx: ParseContextV)
    ensures
        s.in_text && s.in_run && xml_unescaped(raw) is Some ==> step(s, XmlEventV::Text { raw }, ctx) == (ParseV {
            run: RunV { text: s.run.text + xml_unescaped(raw)->0, ..s.run },
            ..s
        }),
        !(s.in_text && s.in_run) ==> step(s, XmlEventV::Text { raw }, ctx) == s,
{
}

/// A hyperlink resolves its relationship id through the relationship table
/// (the last entry for it), or stands as `rel:` and the id when the table
/// has none; every run that starts inside it links there, and the link ends
/// with the hyperlink.
pub proof fn lemma_hyperlinks(s: ParseV, name: Seq<char>, attrs: Seq<XmlAttrV>, ctx: ParseContextV, rid: Seq<char>)
    ensures
        local_name(name) == "hyperlink"@ && attr_value(attrs, "id"@) == Some(rid) ==> step(
            s,
            XmlEventV::Start { name, attrs },
            ctx,
        ).hyperlink == Some(
            match lookup(ctx.rels, rid) {
                Some(url) => url,
                None => "rel:"@ + rid,
            },
        ),
        local_name(name) == "r"@ ==> step(s, XmlEventV::Start { name, attrs }, ctx).run.hyperlink == s.hyperlink
            && step(s, XmlEventV::Start { name, attrs }, ctx).in_run,
        local_name(name) == "hyperlink"@ ==> step(s, XmlEventV::End { name }, ctx).hyperlink is None,
{
    reveal_strlit("hyperlink");
    reveal_strlit("r");
    reveal_strlit("b");
    reveal_strlit("i");
    reveal_strlit("u");
    reveal_strlit("t");
    reveal_strlit("tbl");
    reveal_strlit("tr");
    reveal_strlit("tc");
    reveal_strlit("p");
    reveal_strlit("pStyle");
    reveal_strlit("numPr");
    reveal_strlit("ilvl");
    reveal_strlit("numId");
    reveal_strlit("vertAlign");
    reveal_strlit("rFonts");
    reveal_strlit("drawing");
    let l = local_name(name);
    assert("tbl"@.len() == 3 && "tr"@.len() == 2 && "tc"@.len() == 2 && "p"@.len() == 1);
    assert("pStyle"@.len() == 6 && "numPr"@.len() == 5 && "ilvl"@.len() == 4 && "numId"@.len() == 5);
    assert("b"@.len() == 1 && "i"@.len() == 1 && "u"@.len() == 1 && "t"@.len() == 1 && "r"@.len() == 1);
    assert("vertAlign"@.len() == 9 && "rFonts"@.len() == 6 && "drawing"@.len() == 7 && "hyperlink"@.len() == 9);
    if l == "hyperlink"@ {
        assert(l[0] == 'h' && "vertAlign"@[0] == 'v');
        assert(!is_block_tag(l) && !is_run_tag(l));
        assert(l != "t"@ && l != "p"@ && l != "r"@ && l != "tc"@ && l != "tr"@ && l != "tbl"@ && l != "drawing"@);
    }
    if l == "r"@ {
        assert(l[0] == 'r' && "p"@[0] == 'p' && "b"@[0] == 'b' && "i"@[0] == 'i' && "u"@[0] == 'u');
        assert(!is_block_tag(l) && is_run_tag(l));
    }
}

/// A table ends as a table element of the rows it collected, in order and
/// without a caption, when it has any; a row joins the table when it has
/// cells; a cell joins its row with the runs collected in it.
pub proof fn lemma_table_tags(s: ParseV, name: Seq<char>, ctx: ParseContextV)
    ensures
        local_name(name) == "tbl"@ && s.table_rows.len() > 0 ==> step(s, XmlEventV::End { name }, ctx).elements
            == s.elements.push(ElementV::Table { rows: s.table_rows, caption: None }),
        local_name(name) == "tbl"@ ==> !step(s, XmlEventV::End { name }, ctx).in_table,
        local_name(name) == "tr"@ && s.current_row.len() > 0 ==> step(s, XmlEventV::End { name }, ctx).table_rows
            == s.table_rows.push(s.current_row),
        local_name(name) == "tc"@ ==> step(s, XmlEventV::End { name }, ctx).current_row == s.current_row.push(
            s.cell_runs,
        ),
{
    reveal_strlit("tbl");
    reveal_strlit("tr");
    reveal_strlit("tc");
    reveal_strlit("p");
    reveal_strlit("t");
    reveal_strlit("r");
    reveal_strlit("hyperlink");
    assert("tbl"@.len() == 3 && "tr"@.len() == 2 && "tc"@.len() == 2 && "p"@.len() == 1 && "t"@.len() == 1);
    assert("r"@.len() == 1 && "hyperlink"@.len() == 9);
    assert("tr"@[1] == 'r' && "tc"@[1] == 'c');
}

/// Inside a drawing, `<a:blip r:embed="rid">` takes the image's path from
/// the relationship table (the last entry for `rid`, or `media/` and the id
/// when there is none), and `<wp:extent cx="n">` its width in EMU; written
/// either way.  The drawing's end queues an image that has a path, with its
/// width and caption, to be written before its paragraph.
pub proof fn lemma_drawings(s: ParseV, name: Seq<char>, attrs: Seq<XmlAttrV>, ctx: ParseContextV, rid: Seq<char>, n: nat)
    requires
        s.in_drawing,
    ensures
        local_name(name) == "blip"@ && attr_value(attrs, "embed"@) == Some(rid) ==> step(
            s,
            XmlEventV::Empty { name, attrs },
            ctx,
        ).drawing.path == Some(
            match lookup(ctx.rels, rid) {
                Some(p) => p,
                None => "media/"@ + rid,
            },
        ) && step(s, XmlEventV::Start { name, attrs }, ctx) == step(s, XmlEventV::Empty { name, attrs }, ctx),
        local_name(name) == "extent"@ && attr_uint(attrs, "cx"@, u64::MAX as nat) == Some(n) ==> step(
            s,
            XmlEventV::Empty { name, attrs },
            ctx,
        ).drawing.width_emu == Some(n as u64),
        local_name(name) == "drawing"@ && s.drawing.path is Some ==> step(s, XmlEventV::End { name }, ctx).pending_images
            == s.pending_images.push(
            ElementV::Image { path: s.drawing.path->0, width_emu: s.drawing.width_emu, caption: s.drawing.caption },
        ),
{
    reveal_strlit("blip");
    reveal_strlit("extent");
    reveal_strlit("drawing");
    reveal_strlit("docPr");
    reveal_strlit("b");
    reveal_strlit("i");
    reveal_strlit("u");
    reveal_strlit("r");
    reveal_strlit("t");
    reveal_strlit("br");
    reveal_strlit("tab");
    reveal_strlit("tbl");
    reveal_strlit("tr");
    reveal_strlit("tc");
    reveal_strlit("p");
    reveal_strlit("pStyle");
    reveal_strlit("numPr");
    reveal_strlit("ilvl");
    reveal_strlit("numId");
    reveal_strlit("vertAlign");
    reveal_strlit("rFonts");
    reveal_strlit("hyperlink");
    assert("tbl"@.len() == 3 && "tr"@.len() == 2 && "tc"@.len() == 2 && "p"@.len() == 1 && "t"@.len() == 1);
    assert("pStyle"@.len() == 6 && "numPr"@.len() == 5 && "ilvl"@.len() == 4 && "numId"@.len() == 5);
    assert("b"@.len() == 1 && "i"@.len() == 1 && "u"@.len() == 1 && "r"@.len() == 1 && "br"@.len() == 2);
    assert("tab"@.len() == 3 && "vertAlign"@.len() == 9 && "rFonts"@.len() == 6 && "hyperlink"@.len() == 9);
    assert("blip"@.len() == 4 && "extent"@.len() == 6 && "drawing"@.len() == 7 && "docPr"@.len() == 5);
    let l = local_name(name);
    if l == "blip"@ {
        assert(l != "ilvl"@) by {
            assert(l[0] == 'b' && "ilvl"@[0] == 'i');
        }
        assert(!is_block_tag(l) && !is_run_tag(l) && !is_toggle(l) && !is_para_property(l) && !is_run_property(l));
        assert(l != "t"@ && l != "hyperlink"@ && l != "drawing"@ && l != "br"@ && l != "tab"@);
    }
    if l == "extent"@ {
        assert(l != "pStyle"@ && l != "rFonts"@) by {
            assert(l[0] == 'e' && "pStyle"@[0] == 'p' && "rFonts"@[0] == 'r');
        }
        assert(!is_block_tag(l) && !is_run_tag(l) && !is_toggle(l) && !is_para_property(l) && !is_run_property(l));
        assert(l != "t"@ && l != "hyperlink"@ && l != "drawing"@ && l != "br"@ && l != "tab"@);
    }
    if l == "drawing"@ {
        assert(l != "p"@ && l != "t"@ && l != "r"@ && l != "hyperlink"@ && l != "tc"@ && l != "tr"@ && l != "tbl"@);
    }
}

/// The images of a paragraph are written before whatever the paragraph
/// becomes, after every element written so far.
pub proof fn lemma_images_before_paragraph(s: ParseV)
    requires
        para_end_defined(s),
    ensures
        end_paragraph(s).elements.len() >= (s.elements + s.pending_images).len(),
        end_paragraph(s).elements.take((s.elements + s.pending_images).len() as int) == s.elements + s.pending_images,
        end_paragraph(s).pending_images.len() == 0,
{
    let base = s.elements + s.pending_images;
    let f = para_flushed(s);
    assert(f.elements.take(base.len() as int) =~= base);
    let e = end_paragraph(s).elements;
    assert(e.len() >= f.elements.len());
    assert(e.take(f.elements.len() as int) =~= f.elements) by {
        if e.len() > f.elements.len() {
            assert(e.drop_last() =~= f.elements);
        }
    }
    assert(e.take(base.len() as int) =~= f.elements.take(base.len() as int));
}

} // verus!
