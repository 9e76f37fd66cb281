//! The parser of `word/document.xml`: a state machine over the XML events.
//!
//! `step` says what each event does to the parser state; `run_events` folds
//! the steps over an event sequence and `finish` turns the final state into a
//! document.  The executable parser is proved to follow them exactly.
use vstd::prelude::*;
use crate::model::{
    Cell, Document, DocumentV, DocError, DocErrorV, Element, ElementV, Run, RunV, runs_text,
    concat_runs, opt_view, lemma_push_deep_view,
};
use crate::text::{
    chars_of, contains, contains_str, lowercase_chars, uppercase_chars, starts_with, starts_with_str,
    trim, trim_chars, unicode_lowercase, unicode_uppercase, utf8_len, char_index_at_byte, slice_of,
    string_of,
};
use crate::docx::{
    Numbering, NumberingV, list_is_ordered, local_name, local_name_of, is_str, attr_value, attr_uint,
    attr_has, attr_value_exec, attr_uint_exec, attr_has_exec, truthy, is_truthy, lookup,
    lookup_exec, style_heading_level, heading_level_for_style,
};
use crate::xml::{XmlAttr, XmlAttrV, XmlEvent, XmlEventV, xml_unescaped, unescape_text, xml_tokens};

verus! {

broadcast use vstd::string::group_string_axioms;

// ── What the parser is given ─────────────────────────────────────────────────

/// The other parts of the package the body refers to: style names by style
/// id and relationship targets by relationship id, each read through
/// `lookup` so that of two entries with one id the later wins (as with
/// `HashMap::insert`, see `lemma_lookup_push`), and the numbering
/// definitions.
pub struct ParseContext {
    pub styles: Vec<(String, String)>,
    pub rels: Vec<(String, String)>,
    pub numbering: Numbering,
}

pub struct ParseContextV {
    pub styles: Seq<(Seq<char>, Seq<char>)>,
    pub rels: Seq<(Seq<char>, Seq<char>)>,
    pub numbering: NumberingV,
}

impl DeepView for ParseContext {
    type V = ParseContextV;

    open spec fn deep_view(&self) -> ParseContextV {
        ParseContextV {
            styles: self.styles.deep_view(),
            rels: self.rels.deep_view(),
            numbering: self.numbering@,
        }
    }
}

// ── Parser state ─────────────────────────────────────────────────────────────

/// The image being read inside a `<w:drawing>`.
pub struct ImageData {
    pub path: Option<String>,
    pub width_emu: Option<u64>,
    pub caption: Option<String>,
}

#[verifier::ext_equal]
pub struct ImageV {
    pub path: Option<Seq<char>>,
    pub width_emu: Option<u64>,
    pub caption: Option<Seq<char>>,
}

impl DeepView for ImageData {
    type V = ImageV;

    open spec fn deep_view(&self) -> ImageV {
        ImageV { path: opt_view(self.path), width_emu: self.width_emu, caption: opt_view(self.caption) }
    }
}

/// Everything the parser remembers between events.
pub struct ParseState {
    pub title: Option<String>,
    pub elements: Vec<Element>,
    pub para_runs: Vec<Run>,
    pub para_style: Option<String>,
    pub para_has_numpr: bool,
    pub list_ordered: bool,
    pub list_level: u8,
    pub list_items: Vec<(u8, Vec<Run>)>,
    pub active_numid: Option<u32>,
    pub active_ordered: bool,
    pub list_numid: Option<u32>,
    pub in_table: bool,
    pub table_rows: Vec<Vec<Cell>>,
    pub current_row: Vec<Cell>,
    pub cell_runs: Vec<Run>,
    pub in_cell: bool,
    pub run: Run,
    pub in_run: bool,
    pub in_text: bool,
    pub hyperlink: Option<String>,
    /// Images of the current paragraph, emitted before it.
    pub pending_images: Vec<Element>,
    pub drawing: ImageData,
    pub in_drawing: bool,
}

#[verifier::ext_equal]
pub struct ParseV {
    pub title: Option<Seq<char>>,
    pub elements: Seq<ElementV>,
    pub para_runs: Seq<RunV>,
    pub para_style: Option<Seq<char>>,
    pub para_has_numpr: bool,
    pub list_ordered: bool,
    pub list_level: u8,
    pub list_items: Seq<(u8, Seq<RunV>)>,
    pub active_numid: Option<u32>,
    pub active_ordered: bool,
    pub list_numid: Option<u32>,
    pub in_table: bool,
    pub table_rows: Seq<Seq<Seq<RunV>>>,
    pub current_row: Seq<Seq<RunV>>,
    pub cell_runs: Seq<RunV>,
    pub in_cell: bool,
    pub run: RunV,
    pub in_run: bool,
    pub in_text: bool,
    pub hyperlink: Option<Seq<char>>,
    pub pending_images: Seq<ElementV>,
    pub drawing: ImageV,
    pub in_drawing: bool,
}

impl DeepView for ParseState {
    type V = ParseV;

    open spec fn deep_view(&self) -> ParseV {
        ParseV {
            title: opt_view(self.title),
            elements: self.elements.deep_view(),
            para_runs: self.para_runs.deep_view(),
            para_style: opt_view(self.para_style),
            para_has_numpr: self.para_has_numpr,
            list_ordered: self.list_ordered,
            list_level: self.list_level,
            list_items: self.list_items.deep_view(),
            active_numid: self.active_numid,
            active_ordered: self.active_ordered,
            list_numid: self.list_numid,
            in_table: self.in_table,
            table_rows: self.table_rows.deep_view(),
            current_row: self.current_row.deep_view(),
            cell_runs: self.cell_runs.deep_view(),
            in_cell: self.in_cell,
            run: self.run.deep_view(),
            in_run: self.in_run,
            in_text: self.in_text,
            hyperlink: opt_view(self.hyperlink),
            pending_images: self.pending_images.deep_view(),
            drawing: self.drawing.deep_view(),
            in_drawing: self.in_drawing,
        }
    }
}

// ── The specification ────────────────────────────────────────────────────────

/// A run with no text and no formatting, linking to `link`.
pub open spec fn blank_run(link: Option<Seq<char>>) -> RunV {
    RunV {
        text: Seq::empty(),
        bold: false,
        italic: false,
        underline: false,
        superscript: false,
        subscript: false,
        mono: false,
        hyperlink: link,
    }
}

/// The plain one-space run put between paragraphs of one table cell.
pub open spec fn space_run() -> RunV {
    RunV { text: seq![' '], ..blank_run(None) }
}

pub open spec fn no_image() -> ImageV {
    ImageV { path: None, width_emu: None, caption: None }
}

/// The state before the first event.
pub open spec fn initial() -> ParseV {
    ParseV {
        title: None,
        elements: Seq::empty(),
        para_runs: Seq::empty(),
        para_style: None,
        para_has_numpr: false,
        list_ordered: false,
        list_level: 0,
        list_items: Seq::empty(),
        active_numid: None,
        active_ordered: false,
        list_numid: None,
        in_table: false,
        table_rows: Seq::empty(),
        current_row: Seq::empty(),
        cell_runs: Seq::empty(),
        in_cell: false,
        run: blank_run(None),
        in_run: false,
        in_text: false,
        hyperlink: None,
        pending_images: Seq::empty(),
        drawing: no_image(),
        in_drawing: false,
    }
}

/// A style id resolved to its name, or the id itself when unknown.
pub open spec fn resolve_style(ctx: ParseContextV, id: Seq<char>) -> Seq<char> {
    match lookup(ctx.styles, id) {
        Some(name) => name,
        None => id,
    }
}

/// A hyperlink's target: the relationship's target, or `rel:` and the id.
pub open spec fn link_target(ctx: ParseContextV, rid: Seq<char>) -> Seq<char> {
    match lookup(ctx.rels, rid) {
        Some(url) => url,
        None => "rel:"@ + rid,
    }
}

/// An embedded image's path: the relationship's target, or `media/` and the id.
pub open spec fn image_target(ctx: ParseContextV, rid: Seq<char>) -> Seq<char> {
    match lookup(ctx.rels, rid) {
        Some(path) => path,
        None => "media/"@ + rid,
    }
}

/// A font name that marks monospace text.
pub open spec fn is_mono_font(v: Seq<char>) -> bool {
    let l = unicode_lowercase(v);
    contains(l, "courier"@) || contains(l, "consolas"@) || contains(l, "mono"@) || contains(l, "typewriter"@)
}

/// Some attribute value names a monospace font.
pub open spec fn any_mono_font(attrs: Seq<XmlAttrV>) -> bool {
    exists|i: int| 0 <= i < attrs.len() && is_mono_font((#[trigger] attrs[i]).value)
}

/// The first non-empty value among `descr`, `title` and `name`.
pub open spec fn doc_pr_caption(attrs: Seq<XmlAttrV>) -> Option<Seq<char>> {
    let descr = attr_value(attrs, "descr"@);
    let title = attr_value(attrs, "title"@);
    let name = attr_value(attrs, "name"@);
    if descr is Some && descr->0.len() > 0 {
        descr
    } else if title is Some && title->0.len() > 0 {
        title
    } else if name is Some && name->0.len() > 0 {
        name
    } else {
        None
    }
}

/// The effect of a drawing-related tag (`extent`, `docPr`, `blip`), start or
/// empty, inside a `<w:drawing>`.
pub open spec fn drawing_step(s: ParseV, l: Seq<char>, attrs: Seq<XmlAttrV>, ctx: ParseContextV) -> ParseV {
    if !s.in_drawing {
        s
    } else if l == "extent"@ {
        match attr_uint(attrs, "cx"@, u64::MAX as nat) {
            Some(n) => ParseV { drawing: ImageV { width_emu: Some(n as u64), ..s.drawing }, ..s },
            None => s,
        }
    } else if l == "docPr"@ {
        ParseV { drawing: ImageV { caption: doc_pr_caption(attrs), ..s.drawing }, ..s }
    } else if l == "blip"@ {
        match attr_value(attrs, "embed"@) {
            Some(rid) => ParseV { drawing: ImageV { path: Some(image_target(ctx, rid)), ..s.drawing }, ..s },
            None => s,
        }
    } else {
        s
    }
}

/// A toggle property (`b`, `i`, `u`) of the current run.
pub open spec fn toggle_step(s: ParseV, l: Seq<char>, attrs: Seq<XmlAttrV>) -> ParseV {
    if !s.in_run {
        s
    } else if l == "b"@ {
        ParseV { run: RunV { bold: truthy(attrs), ..s.run }, ..s }
    } else if l == "i"@ {
        ParseV { run: RunV { italic: truthy(attrs), ..s.run }, ..s }
    } else {
        ParseV { run: RunV { underline: truthy(attrs), ..s.run }, ..s }
    }
}

pub open spec fn is_toggle(l: Seq<char>) -> bool {
    l == "b"@ || l == "i"@ || l == "u"@
}

/// The start tags of tables, paragraphs and their numbering.
pub open spec fn is_block_tag(l: Seq<char>) -> bool {
    l == "tbl"@ || l == "tr"@ || l == "tc"@ || l == "p"@ || l == "pStyle"@ || l == "numPr"@ || l == "ilvl"@
        || l == "numId"@
}

pub open spec fn block_start(s: ParseV, l: Seq<char>, attrs: Seq<XmlAttrV>, ctx: ParseContextV) -> ParseV {
    if l == "tbl"@ {
        ParseV { in_table: true, table_rows: Seq::empty(), ..s }
    } else if l == "tr"@ {
        ParseV { current_row: Seq::empty(), ..s }
    } else if l == "tc"@ {
        ParseV { in_cell: true, cell_runs: Seq::empty(), ..s }
    } else if l == "p"@ {
        ParseV { para_runs: Seq::empty(), para_style: None, para_has_numpr: false, ..s }
    } else if l == "pStyle"@ {
        match attr_value(attrs, "val"@) {
            Some(id) => ParseV { para_style: Some(resolve_style(ctx, id)), ..s },
            None => s,
        }
    } else if l == "numPr"@ {
        ParseV { para_has_numpr: true, ..s }
    } else if l == "ilvl"@ {
        match attr_uint(attrs, "val"@, u8::MAX as nat) {
            Some(n) => ParseV { list_level: n as u8, ..s },
            None => s,
        }
    } else {
        match attr_uint(attrs, "val"@, u32::MAX as nat) {
            Some(n) => ParseV {
                active_numid: Some(n as u32),
                active_ordered: list_is_ordered(ctx.numbering, n as u32),
                ..s
            },
            None => s,
        }
    }
}

/// The start tags of runs and their formatting.
pub open spec fn is_run_tag(l: Seq<char>) -> bool {
    l == "r"@ || is_toggle(l) || l == "vertAlign"@ || l == "rFonts"@
}

pub open spec fn run_start(s: ParseV, l: Seq<char>, attrs: Seq<XmlAttrV>) -> ParseV {
    if l == "r"@ {
        ParseV { in_run: true, run: blank_run(s.hyperlink), ..s }
    } else if is_toggle(l) {
        toggle_step(s, l, attrs)
    } else if l == "vertAlign"@ {
        if s.in_run {
            ParseV {
                run: RunV {
                    superscript: s.run.superscript || attr_has(attrs, "val"@, "superscript"@),
                    subscript: s.run.subscript || attr_has(attrs, "val"@, "subscript"@),
                    ..s.run
                },
                ..s
            }
        } else {
            s
        }
    } else if any_mono_font(attrs) {
        ParseV { run: RunV { mono: true, ..s.run }, ..s }
    } else {
        s
    }
}

/// The start tags of text, hyperlinks and drawings, and the drawing parts.
pub open spec fn other_start(s: ParseV, l: Seq<char>, attrs: Seq<XmlAttrV>, ctx: ParseContextV) -> ParseV {
    if l == "t"@ {
        ParseV { in_text: true, ..s }
    } else if l == "hyperlink"@ {
        match attr_value(attrs, "id"@) {
            Some(rid) => ParseV { hyperlink: Some(link_target(ctx, rid)), ..s },
            None => s,
        }
    } else if l == "drawing"@ {
        ParseV { in_drawing: true, drawing: no_image(), ..s }
    } else {
        drawing_step(s, l, attrs, ctx)
    }
}

/// A start tag with local name `l`.
pub open spec fn start_step(s: ParseV, l: Seq<char>, attrs: Seq<XmlAttrV>, ctx: ParseContextV) -> ParseV {
    if is_block_tag(l) {
        block_start(s, l, attrs, ctx)
    } else if is_run_tag(l) {
        run_start(s, l, attrs)
    } else {
        other_start(s, l, attrs, ctx)
    }
}

/// A space added to the current run's text, inside a run.
pub open spec fn run_space(s: ParseV) -> ParseV {
    if s.in_run {
        ParseV { run: RunV { text: s.run.text.push(' '), ..s.run }, ..s }
    } else {
        s
    }
}

/// The paragraph properties that take effect whether written as a start
/// tag or as an empty-element tag.
pub open spec fn is_para_property(l: Seq<char>) -> bool {
    l == "pStyle"@ || l == "ilvl"@ || l == "numId"@
}

/// The run properties that take effect whether written as a start tag or as
/// an empty-element tag (the toggles are handled on their own).
pub open spec fn is_run_property(l: Seq<char>) -> bool {
    l == "vertAlign"@ || l == "rFonts"@
}

/// An empty-element tag with local name `l`.
pub open spec fn empty_step(s: ParseV, l: Seq<char>, attrs: Seq<XmlAttrV>, ctx: ParseContextV) -> ParseV {
    if l == "br"@ {
        if attr_has(attrs, "type"@, "page"@) {
            ParseV { elements: s.elements.push(ElementV::PageBreak), ..s }
        } else {
            run_space(s)
        }
    } else if l == "tab"@ {
        run_space(s)
    } else if is_toggle(l) {
        toggle_step(s, l, attrs)
    } else if is_para_property(l) {
        block_start(s, l, attrs, ctx)
    } else if is_run_property(l) {
        run_start(s, l, attrs)
    } else {
        drawing_step(s, l, attrs, ctx)
    }
}

/// Character data: appended, unescaped, to the current run inside `<w:t>`;
/// text whose references are malformed adds nothing.
pub open spec fn text_step(s: ParseV, raw: Seq<char>) -> ParseV {
    if s.in_text && s.in_run {
        let t = match xml_unescaped(raw) {
            Some(u) => u,
            None => Seq::empty(),
        };
        ParseV { run: RunV { text: s.run.text + t, ..s.run }, ..s }
    } else {
        s
    }
}

/// The end of a run: a run with text joins the current cell, or the current
/// paragraph outside tables; runs in a table but outside cells are dropped.
pub open spec fn end_run(s: ParseV) -> ParseV {
    let kept = if s.run.text.len() > 0 && s.in_cell {
        ParseV { cell_runs: s.cell_runs.push(s.run), ..s }
    } else if s.run.text.len() > 0 && !s.in_table {
        ParseV { para_runs: s.para_runs.push(s.run), ..s }
    } else {
        s
    };
    ParseV { in_run: false, run: blank_run(None), ..kept }
}

/// The bytes of `t` up to `k` characters are exactly six (the length of
/// `TITLE:`).
pub open spec fn title_cut_at(t: Seq<char>, k: int) -> bool {
    0 <= k <= t.len() && utf8_len(t.take(k)) == 6
}

/// The paragraph `runs` is a `Title:` line that sets the document title.
pub open spec fn is_title_line(s: ParseV, runs: Seq<RunV>) -> bool {
    s.title is None && starts_with(unicode_uppercase(trim(runs_text(runs))), "TITLE:"@)
}

/// A body paragraph outside lists, headings and cells.  A `Title:` line sets
/// the title (when none is set yet) to what follows the first six bytes of
/// the trimmed text, trimmed, and is not kept as a paragraph.
pub open spec fn body_paragraph(s: ParseV, runs: Seq<RunV>) -> ParseV {
    if is_title_line(s, runs) {
        let tt = trim(runs_text(runs));
        let k = choose|k: int| title_cut_at(tt, k);
        let t = trim(tt.skip(k));
        if t.len() > 0 {
            ParseV { title: Some(t), ..s }
        } else {
            s
        }
    } else {
        ParseV { elements: s.elements.push(ElementV::Paragraph { runs }), ..s }
    }
}

/// The heading level of the paragraph's style, if any.
pub open spec fn para_heading(s: ParseV) -> Option<u8> {
    match s.para_style {
        Some(st) => style_heading_level(st),
        None => None,
    }
}

/// The paragraph is a list item: it has numbering and is not a heading.
pub open spec fn is_list_item(s: ParseV) -> bool {
    s.para_has_numpr && para_heading(s) is None
}

/// The open list ends before this paragraph: the paragraph is no list item,
/// or it is an item of another list (its `numId` differs from the open
/// list's).
pub open spec fn list_breaks(s: ParseV) -> bool {
    s.list_items.len() > 0 && (!is_list_item(s) || s.active_numid != s.list_numid)
}

/// The state at the end of a paragraph once its pending images, and an open
/// list that the paragraph breaks, have been emitted.
pub open spec fn para_flushed(s: ParseV) -> ParseV {
    let s1 = ParseV {
        elements: s.elements + s.pending_images,
        pending_images: Seq::empty(),
        para_runs: Seq::empty(),
        para_style: None,
        ..s
    };
    if list_breaks(s) {
        ParseV {
            elements: s1.elements.push(ElementV::List { ordered: s.list_ordered, items: s.list_items }),
            list_items: Seq::empty(),
            ..s1
        }
    } else {
        s1
    }
}

/// The paragraph ends up as a body paragraph (or a `Title:` line): it is no
/// heading, list item or cell paragraph, and it has runs or follows content.
pub open spec fn is_body_paragraph(s: ParseV) -> bool {
    para_heading(s) is None && !is_list_item(s) && !s.in_cell
        && (s.para_runs.len() > 0 || para_flushed(s).elements.len() > 0)
}

/// The end of a paragraph: pending images are emitted, then an open list that
/// this paragraph breaks, then the paragraph becomes a heading, a list item,
/// part of the current cell, or a body paragraph.
pub open spec fn end_paragraph(s: ParseV) -> ParseV {
    let runs = s.para_runs;
    let s2 = para_flushed(s);
    match para_heading(s) {
        Some(level) => {
            let t = runs_text(runs);
            let title = if level == 1 && s2.title is None && t.len() > 0 { Some(t) } else { s2.title };
            ParseV { title, elements: s2.elements.push(ElementV::Heading { level, runs }), ..s2 }
        },
        None => if is_list_item(s) {
            ParseV {
                list_items: s2.list_items.push((s2.list_level, runs)),
                list_numid: s2.active_numid,
                list_ordered: s2.active_ordered,
                ..s2
            }
        } else if s2.in_cell {
            if runs.len() > 0 {
                let before = if s2.cell_runs.len() > 0 { s2.cell_runs.push(space_run()) } else { s2.cell_runs };
                ParseV { cell_runs: before + runs, ..s2 }
            } else {
                s2
            }
        } else if is_body_paragraph(s) {
            body_paragraph(s2, runs)
        } else {
            s2
        },
    }
}

/// The end of a table cell: its runs become a cell of the current row.
pub open spec fn end_cell(s: ParseV) -> ParseV {
    ParseV { in_cell: false, current_row: s.current_row.push(s.cell_runs), cell_runs: Seq::empty(), ..s }
}

/// The end of a table row: a row with cells joins the table.
pub open spec fn end_row(s: ParseV) -> ParseV {
    if s.current_row.len() > 0 {
        ParseV { table_rows: s.table_rows.push(s.current_row), current_row: Seq::empty(), ..s }
    } else {
        s
    }
}

/// The end of a table: a table with rows is emitted, without a caption.
pub open spec fn end_table(s: ParseV) -> ParseV {
    if s.table_rows.len() > 0 {
        ParseV {
            in_table: false,
            elements: s.elements.push(ElementV::Table { rows: s.table_rows, caption: None }),
            table_rows: Seq::empty(),
            ..s
        }
    } else {
        ParseV { in_table: false, ..s }
    }
}

/// The end of a drawing: an image with a path waits for the paragraph's end.
pub open spec fn end_drawing(s: ParseV) -> ParseV {
    if s.in_drawing {
        let pending = match s.drawing.path {
            Some(p) => s.pending_images.push(
                ElementV::Image { path: p, width_emu: s.drawing.width_emu, caption: s.drawing.caption },
            ),
            None => s.pending_images,
        };
        ParseV { in_drawing: false, pending_images: pending, drawing: no_image(), ..s }
    } else {
        s
    }
}

/// An end tag with local name `l`.
pub open spec fn end_step(s: ParseV, l: Seq<char>) -> ParseV {
    if l == "p"@ {
        end_paragraph(s)
    } else if l == "t"@ {
        ParseV { in_text: false, ..s }
    } else if l == "r"@ {
        end_run(s)
    } else if l == "hyperlink"@ {
        ParseV { hyperlink: None, ..s }
    } else if l == "tc"@ {
        end_cell(s)
    } else if l == "tr"@ {
        end_row(s)
    } else if l == "tbl"@ {
        end_table(s)
    } else if l == "drawing"@ {
        end_drawing(s)
    } else {
        s
    }
}

/// The end of the current paragraph is defined unless it is a `Title:` line
/// whose first six bytes do not end on a character boundary (there the
/// title cannot be cut).
pub open spec fn para_end_defined(s: ParseV) -> bool {
    is_body_paragraph(s) && is_title_line(s, s.para_runs)
        ==> exists|k: int| title_cut_at(trim(runs_text(s.para_runs)), k)
}

/// Every step is defined except the end of a paragraph that
/// `para_end_defined` rules out.
pub open spec fn step_defined(s: ParseV, ev: XmlEventV) -> bool {
    match ev {
        XmlEventV::End { name } => local_name(name) == "p"@ ==> para_end_defined(s),
        _ => true,
    }
}

/// One event.
pub open spec fn step(s: ParseV, ev: XmlEventV, ctx: ParseContextV) -> ParseV {
    match ev {
        XmlEventV::Start { name, attrs } => start_step(s, local_name(name), attrs, ctx),
        XmlEventV::Empty { name, attrs } => empty_step(s, local_name(name), attrs, ctx),
        XmlEventV::Text { raw } => text_step(s, raw),
        XmlEventV::End { name } => end_step(s, local_name(name)),
        _ => s,
    }
}

/// The document of the final state: a list still open is emitted last.
pub open spec fn finish(s: ParseV) -> DocumentV {
    DocumentV {
        title: s.title,
        elements: if s.list_items.len() > 0 {
            s.elements.push(ElementV::List { ordered: s.list_ordered, items: s.list_items })
        } else {
            s.elements
        },
    }
}

/// The outcome of reading `evs` from state `s`: the document at the end of
/// file, the reader's message at its first error, or `None` where a step is
/// undefined.
pub open spec fn run_events(s: ParseV, evs: Seq<XmlEventV>, ctx: ParseContextV) -> Option<Result<DocumentV, DocErrorV>>
    decreases evs.len(),
{
    if evs.len() == 0 {
        Some(Ok(finish(s)))
    } else {
        match evs[0] {
            XmlEventV::Eof => Some(Ok(finish(s))),
            XmlEventV::Error { message } => Some(Err(DocErrorV::Xml(message))),
            _ => if step_defined(s, evs[0]) {
                run_events(step(s, evs[0], ctx), evs.drop_first(), ctx)
            } else {
                None
            },
        }
    }
}

// ── The executable parser ────────────────────────────────────────────────────

/// A `attr_uint` result never exceeds its bound.
pub proof fn lemma_attr_uint_bound(attrs: Seq<XmlAttrV>, key: Seq<char>, max: nat)
    ensures
        attr_uint(attrs, key, max) matches Some(n) ==> n <= max,
    decreases attrs.len(),
{
    if attrs.len() > 0 {
        lemma_attr_uint_bound(attrs.drop_last(), key, max);
    }
}

fn blank_run_exec(link: Option<String>) -> (r: Run)
    ensures
        r.deep_view() == blank_run(opt_view(link)),
{
    Run {
        text: String::new(),
        bold: false,
        italic: false,
        underline: false,
        superscript: false,
        subscript: false,
        mono: false,
        hyperlink: link,
    }
}

fn no_image_exec() -> (r: ImageData)
    ensures
        r.deep_view() == no_image(),
{
    ImageData { path: None, width_emu: None, caption: None }
}

fn initial_state() -> (st: ParseState)
    ensures
        st.deep_view() == initial(),
{
    let st = ParseState {
        title: None,
        elements: Vec::new(),
        para_runs: Vec::new(),
        para_style: None,
        para_has_numpr: false,
        list_ordered: false,
        list_level: 0,
        list_items: Vec::new(),
        active_numid: None,
        active_ordered: false,
        list_numid: None,
        in_table: false,
        table_rows: Vec::new(),
        current_row: Vec::new(),
        cell_runs: Vec::new(),
        in_cell: false,
        run: blank_run_exec(None),
        in_run: false,
        in_text: false,
        hyperlink: None,
        pending_images: Vec::new(),
        drawing: no_image_exec(),
        in_drawing: false,
    };
    assert(st.deep_view() =~= initial());
    st
}

fn copy_opt(o: &Option<String>) -> (r: Option<String>)
    ensures
        opt_view(r) == opt_view(*o),
{
    match o {
        Some(s) => Some(s.clone()),
        None => None,
    }
}

/// The value of `key` in an association list, or `fallback` followed by the key.
fn resolve_or(entries: &Vec<(String, String)>, key: &str, fallback: &str) -> (r: String)
    ensures
        r@ == (match lookup(entries.deep_view(), key@) {
            Some(v) => v,
            None => fallback@ + key@,
        }),
{
    match lookup_exec(entries, key) {
        Some(v) => v,
        None => {
            let mut s = String::from_str(fallback);
            s.append(key);
            s
        },
    }
}

fn mono_font_exec(v: &str) -> (b: bool)
    ensures
        b == is_mono_font(v@),
{
    let l = lowercase_chars(&chars_of(v));
    contains_str(&l, "courier") || contains_str(&l, "consolas") || contains_str(&l, "mono")
        || contains_str(&l, "typewriter")
}

fn any_mono_font_exec(attrs: &Vec<XmlAttr>) -> (b: bool)
    ensures
        b == any_mono_font(attrs.deep_view()),
{
    let mut i: usize = 0;
    while i < attrs.len()
        invariant
            i <= attrs.len(),
            forall|j: int| 0 <= j < i ==> !is_mono_font((#[trigger] attrs.deep_view()[j]).value),
        decreases attrs.len() - i,
    {
        assert(attrs.deep_view()[i as int] == attrs[i as int].deep_view());
        if mono_font_exec(attrs[i].value.as_str()) {
            return true;
        }
        i += 1;
    }
    false
}

fn nonempty(o: &Option<String>) -> (b: bool)
    ensures
        b == (opt_view(*o) is Some && opt_view(*o)->0.len() > 0),
{
    match o {
        Some(s) => !s.as_str().is_empty(),
        None => false,
    }
}

fn doc_pr_caption_exec(attrs: &Vec<XmlAttr>) -> (r: Option<String>)
    ensures
        opt_view(r) == doc_pr_caption(attrs.deep_view()),
{
    let descr = attr_value_exec(attrs, "descr");
    let title = attr_value_exec(attrs, "title");
    let name = attr_value_exec(attrs, "name");
    if nonempty(&descr) {
        descr
    } else if nonempty(&title) {
        title
    } else if nonempty(&name) {
        name
    } else {
        None
    }
}

fn drawing_event(st: &mut ParseState, l: &Vec<char>, attrs: &Vec<XmlAttr>, ctx: &ParseContext)
    ensures
        final(st).deep_view() == drawing_step(old(st).deep_view(), l@, attrs.deep_view(), ctx.deep_view()),
{
    if !st.in_drawing {
        return;
    }
    if is_str(l, "extent") {
        proof { lemma_attr_uint_bound(attrs.deep_view(), "cx"@, u64::MAX as nat); }
        match attr_uint_exec(attrs, "cx", u64::MAX) {
            Some(n) => { st.drawing.width_emu = Some(n); },
            None => {},
        }
    } else if is_str(l, "docPr") {
        st.drawing.caption = doc_pr_caption_exec(attrs);
    } else if is_str(l, "blip") {
        match attr_value_exec(attrs, "embed") {
            Some(rid) => { st.drawing.path = Some(resolve_or(&ctx.rels, rid.as_str(), "media/")); },
            None => {},
        }
    }
}

#[verifier::rlimit(30)]
fn toggle_event(st: &mut ParseState, l: &Vec<char>, attrs: &Vec<XmlAttr>)
    ensures
        final(st).deep_view() == toggle_step(old(st).deep_view(), l@, attrs.deep_view()),
{
    if !st.in_run {
        return;
    }
    let on = is_truthy(attrs);
    if is_str(l, "b") {
        st.run.bold = on;
    } else if is_str(l, "i") {
        st.run.italic = on;
    } else {
        st.run.underline = on;
    }
}

fn is_toggle_exec(l: &Vec<char>) -> (b: bool)
    ensures
        b == is_toggle(l@),
{
    is_str(l, "b") || is_str(l, "i") || is_str(l, "u")
}

fn is_block_tag_exec(l: &Vec<char>) -> (b: bool)
    ensures
        b == is_block_tag(l@),
{
    is_str(l, "tbl") || is_str(l, "tr") || is_str(l, "tc") || is_str(l, "p") || is_str(l, "pStyle")
        || is_str(l, "numPr") || is_str(l, "ilvl") || is_str(l, "numId")
}

fn is_run_tag_exec(l: &Vec<char>) -> (b: bool)
    ensures
        b == is_run_tag(l@),
{
    is_str(l, "r") || is_toggle_exec(l) || is_str(l, "vertAlign") || is_str(l, "rFonts")
}

fn block_start_exec(st: &mut ParseState, l: &Vec<char>, attrs: &Vec<XmlAttr>, ctx: &ParseContext)
    ensures
        final(st).deep_view() == block_start(old(st).deep_view(), l@, attrs.deep_view(), ctx.deep_view()),
{
    if is_str(l, "tbl") {
        st.in_table = true;
        st.table_rows = Vec::new();
    } else if is_str(l, "tr") {
        st.current_row = Vec::new();
    } else if is_str(l, "tc") {
        st.in_cell = true;
        st.cell_runs = Vec::new();
    } else if is_str(l, "p") {
        st.para_runs = Vec::new();
        st.para_style = None;
        st.para_has_numpr = false;
    } else if is_str(l, "pStyle") {
        match attr_value_exec(attrs, "val") {
            Some(id) => {
                let name = match lookup_exec(&ctx.styles, id.as_str()) {
                    Some(n) => n,
                    None => id,
                };
                st.para_style = Some(name);
            },
            None => {},
        }
    } else if is_str(l, "numPr") {
        st.para_has_numpr = true;
    } else if is_str(l, "ilvl") {
        proof { lemma_attr_uint_bound(attrs.deep_view(), "val"@, u8::MAX as nat); }
        match attr_uint_exec(attrs, "val", 255) {
            Some(n) => { st.list_level = n as u8; },
            None => {},
        }
    } else {
        proof { lemma_attr_uint_bound(attrs.deep_view(), "val"@, u32::MAX as nat); }
        match attr_uint_exec(attrs, "val", 4294967295) {
            Some(n) => {
                let id = n as u32;
                st.active_numid = Some(id);
                st.active_ordered = ctx.numbering.is_ordered(id);
            },
            None => {},
        }
    }
}

#[verifier::rlimit(30)]
fn run_start_exec(st: &mut ParseState, l: &Vec<char>, attrs: &Vec<XmlAttr>)
    ensures
        final(st).deep_view() == run_start(old(st).deep_view(), l@, attrs.deep_view()),
{
    if is_str(l, "r") {
        st.in_run = true;
        st.run = blank_run_exec(copy_opt(&st.hyperlink));
    } else if is_toggle_exec(l) {
        toggle_event(st, l, attrs);
    } else if is_str(l, "vertAlign") {
        if st.in_run {
            if attr_has_exec(attrs, "val", "superscript") {
                st.run.superscript = true;
            }
            if attr_has_exec(attrs, "val", "subscript") {
                st.run.subscript = true;
            }
        }
    } else if any_mono_font_exec(attrs) {
        st.run.mono = true;
    }
}

fn other_start_exec(st: &mut ParseState, l: &Vec<char>, attrs: &Vec<XmlAttr>, ctx: &ParseContext)
    ensures
        final(st).deep_view() == other_start(old(st).deep_view(), l@, attrs.deep_view(), ctx.deep_view()),
{
    if is_str(l, "t") {
        st.in_text = true;
    } else if is_str(l, "hyperlink") {
        match attr_value_exec(attrs, "id") {
            Some(rid) => { st.hyperlink = Some(resolve_or(&ctx.rels, rid.as_str(), "rel:")); },
            None => {},
        }
    } else if is_str(l, "drawing") {
        st.in_drawing = true;
        st.drawing = no_image_exec();
    } else {
        drawing_event(st, l, attrs, ctx);
    }
}

fn start_event(st: &mut ParseState, l: &Vec<char>, attrs: &Vec<XmlAttr>, ctx: &ParseContext)
    ensures
        final(st).deep_view() == start_step(old(st).deep_view(), l@, attrs.deep_view(), ctx.deep_view()),
{
    if is_block_tag_exec(l) {
        block_start_exec(st, l, attrs, ctx);
    } else if is_run_tag_exec(l) {
        run_start_exec(st, l, attrs);
    } else {
        other_start_exec(st, l, attrs, ctx);
    }
}

fn run_space_exec(st: &mut ParseState)
    ensures
        final(st).deep_view() == run_space(old(st).deep_view()),
{
    if st.in_run {
        crate::text::push_char(&mut st.run.text, ' ');
    }
}

fn empty_event(st: &mut ParseState, l: &Vec<char>, attrs: &Vec<XmlAttr>, ctx: &ParseContext)
    ensures
        final(st).deep_view() == empty_step(old(st).deep_view(), l@, attrs.deep_view(), ctx.deep_view()),
{
    if is_str(l, "br") {
        if attr_has_exec(attrs, "type", "page") {
            let ghost before = st.elements;
            st.elements.push(Element::PageBreak);
            proof { lemma_push_deep_view(before, st.elements, Element::PageBreak); }
        } else {
            run_space_exec(st);
        }
    } else if is_str(l, "tab") {
        run_space_exec(st);
    } else if is_toggle_exec(l) {
        toggle_event(st, l, attrs);
    } else if is_str(l, "pStyle") || is_str(l, "ilvl") || is_str(l, "numId") {
        block_start_exec(st, l, attrs, ctx);
    } else if is_str(l, "vertAlign") || is_str(l, "rFonts") {
        run_start_exec(st, l, attrs);
    } else {
        drawing_event(st, l, attrs, ctx);
    }
}

fn text_event(st: &mut ParseState, raw: &str)
    ensures
        final(st).deep_view() == text_step(old(st).deep_view(), raw@),
{
    if st.in_text && st.in_run {
        match unescape_text(raw) {
            Some(t) => { st.run.text.append(t.as_str()); },
            None => {
                assert(st.run.text@ + Seq::<char>::empty() =~= st.run.text@);
            },
        }
    }
}

/// Two positions cutting six bytes off the same text are the same.
pub proof fn lemma_title_cut_unique(t: Seq<char>, a: int, b: int)
    requires
        title_cut_at(t, a),
        title_cut_at(t, b),
    ensures
        a == b,
{
    if a < b {
        assert(t.take(a + 1).drop_last() =~= t.take(a));
        crate::text::lemma_utf8_len_take_mono(t, a + 1, b);
    } else if b < a {
        assert(t.take(b + 1).drop_last() =~= t.take(b));
        crate::text::lemma_utf8_len_take_mono(t, b + 1, a);
    }
}

fn end_run_exec(st: &mut ParseState)
    ensures
        final(st).deep_view() == end_run(old(st).deep_view()),
{
    let mut r = blank_run_exec(None);
    std::mem::swap(&mut r, &mut st.run);
    st.in_run = false;
    let has_text = !r.text.as_str().is_empty();
    if has_text && st.in_cell {
        let ghost before = st.cell_runs;
        st.cell_runs.push(r);
        proof { lemma_push_deep_view(before, st.cell_runs, r); }
    } else if has_text && !st.in_table {
        let ghost before = st.para_runs;
        st.para_runs.push(r);
        proof { lemma_push_deep_view(before, st.para_runs, r); }
    }
}

fn end_cell_exec(st: &mut ParseState)
    ensures
        final(st).deep_view() == end_cell(old(st).deep_view()),
{
    st.in_cell = false;
    let mut runs: Vec<Run> = Vec::new();
    std::mem::swap(&mut runs, &mut st.cell_runs);
    let cell = Cell { runs };
    let ghost before = st.current_row;
    st.current_row.push(cell);
    proof { lemma_push_deep_view(before, st.current_row, cell); }
}

fn end_row_exec(st: &mut ParseState)
    ensures
        final(st).deep_view() == end_row(old(st).deep_view()),
{
    if st.current_row.len() > 0 {
        let mut row: Vec<Cell> = Vec::new();
        std::mem::swap(&mut row, &mut st.current_row);
        let ghost before = st.table_rows;
        st.table_rows.push(row);
        proof { lemma_push_deep_view(before, st.table_rows, row); }
    }
}

fn end_table_exec(st: &mut ParseState)
    ensures
        final(st).deep_view() == end_table(old(st).deep_view()),
{
    st.in_table = false;
    if st.table_rows.len() > 0 {
        let mut rows: Vec<Vec<Cell>> = Vec::new();
        std::mem::swap(&mut rows, &mut st.table_rows);
        let t = Element::Table { rows, caption: None };
        let ghost before = st.elements;
        st.elements.push(t);
        proof { lemma_push_deep_view(before, st.elements, t); }
    }
}

fn end_drawing_exec(st: &mut ParseState)
    ensures
        final(st).deep_view() == end_drawing(old(st).deep_view()),
{
    if st.in_drawing {
        st.in_drawing = false;
        let mut d = no_image_exec();
        std::mem::swap(&mut d, &mut st.drawing);
        match d.path {
            Some(p) => {
                let img = Element::Image { path: p, width_emu: d.width_emu, caption: d.caption };
                let ghost before = st.pending_images;
                st.pending_images.push(img);
                proof { lemma_push_deep_view(before, st.pending_images, img); }
            },
            None => {},
        }
    }
}

fn same_id(a: Option<u32>, b: Option<u32>) -> (r: bool)
    ensures
        r == (a == b),
{
    match (a, b) {
        (Some(x), Some(y)) => x == y,
        (None, None) => true,
        _ => false,
    }
}

/// Emits the pending images and an open list the paragraph breaks; returns
/// the paragraph's runs and heading level, and whether it is a list item.
#[verifier::rlimit(30)]
fn flush_paragraph(st: &mut ParseState) -> (r: (Vec<Run>, Option<u8>, bool))
    ensures
        final(st).deep_view() == para_flushed(old(st).deep_view()),
        r.0.deep_view() == old(st).deep_view().para_runs,
        r.1 == para_heading(old(st).deep_view()),
        r.2 == is_list_item(old(st).deep_view()),
{
    let ghost s = st.deep_view();
    let hl = match &st.para_style {
        Some(name) => heading_level_for_style(name.as_str()),
        None => None,
    };
    let list_item = st.para_has_numpr && hl.is_none();
    let breaks = st.list_items.len() > 0 && (!list_item || !same_id(st.active_numid, st.list_numid));
    let ghost e0 = st.elements;
    let ghost p0 = st.pending_images;
    st.elements.append(&mut st.pending_images);
    proof { crate::model::lemma_append_deep_view(e0, p0, st.elements); }
    let mut runs: Vec<Run> = Vec::new();
    std::mem::swap(&mut runs, &mut st.para_runs);
    st.para_style = None;
    if breaks {
        let mut items: Vec<(u8, Vec<Run>)> = Vec::new();
        std::mem::swap(&mut items, &mut st.list_items);
        let l = Element::List { ordered: st.list_ordered, items };
        let ghost before = st.elements;
        st.elements.push(l);
        proof { lemma_push_deep_view(before, st.elements, l); }
    }
    assert(st.deep_view() =~= para_flushed(s));
    (runs, hl, list_item)
}

/// A body paragraph; false when it is a `Title:` line that cannot be cut.
fn body_paragraph_exec(st: &mut ParseState, runs: Vec<Run>) -> (ok: bool)
    ensures
        ok == (is_title_line(old(st).deep_view(), runs.deep_view())
            ==> exists|k: int| title_cut_at(trim(runs_text(runs.deep_view())), k)),
        ok ==> final(st).deep_view() == body_paragraph(old(st).deep_view(), runs.deep_view()),
{
    let ghost s = st.deep_view();
    let text = concat_runs(&runs);
    let tt = trim_chars(&text);
    let upper = uppercase_chars(&tt);
    if st.title.is_none() && starts_with_str(&upper, "TITLE:") {
        match char_index_at_byte(&tt, 6) {
            Some(k) => {
                proof {
                    assert(title_cut_at(tt@, k as int));
                    let c = choose|c: int| title_cut_at(tt@, c);
                    lemma_title_cut_unique(tt@, c, k as int);
                }
                let rest = slice_of(&tt, k, tt.len());
                assert(rest@ =~= tt@.skip(k as int));
                let t = trim_chars(&rest);
                if t.len() > 0 {
                    st.title = Some(string_of(&t, 0, t.len()));
                    assert(t@.subrange(0, t@.len() as int) =~= t@);
                }
                true
            },
            None => false,
        }
    } else {
        let p = Element::Paragraph { runs };
        let ghost before = st.elements;
        st.elements.push(p);
        proof { lemma_push_deep_view(before, st.elements, p); }
        true
    }
}

fn end_paragraph_exec(st: &mut ParseState) -> (ok: bool)
    ensures
        ok == para_end_defined(old(st).deep_view()),
        ok ==> final(st).deep_view() == end_paragraph(old(st).deep_view()),
{
    let ghost s = st.deep_view();
    let body = st.para_runs.len() > 0 || st.elements.len() > 0 || st.pending_images.len() > 0;
    let (runs, hl, list_item) = flush_paragraph(st);
    let ghost s2 = st.deep_view();
    let body = body || st.elements.len() > 0;
    match hl {
        Some(level) => {
            if level == 1 && st.title.is_none() {
                let t = concat_runs(&runs);
                if t.len() > 0 {
                    st.title = Some(string_of(&t, 0, t.len()));
                    assert(t@.subrange(0, t@.len() as int) =~= t@);
                }
            }
            let h = Element::Heading { level, runs };
            let ghost before = st.elements;
            st.elements.push(h);
            proof { lemma_push_deep_view(before, st.elements, h); }
            true
        },
        None => {
            if list_item {
                let item = (st.list_level, runs);
                let ghost before = st.list_items;
                st.list_items.push(item);
                proof { lemma_push_deep_view(before, st.list_items, item); }
                st.list_numid = st.active_numid;
                st.list_ordered = st.active_ordered;
                true
            } else if st.in_cell {
                if runs.len() > 0 {
                    if st.cell_runs.len() > 0 {
                        let mut space = String::new();
                        crate::text::push_char(&mut space, ' ');
                        let sp = Run {
                            text: space,
                            bold: false,
                            italic: false,
                            underline: false,
                            superscript: false,
                            subscript: false,
                            mono: false,
                            hyperlink: None,
                        };
                        assert(sp.deep_view() =~= space_run());
                        let ghost before = st.cell_runs;
                        st.cell_runs.push(sp);
                        proof { lemma_push_deep_view(before, st.cell_runs, sp); }
                    }
                    let ghost c0 = st.cell_runs;
                    let mut more = runs;
                    let ghost m0 = more;
                    st.cell_runs.append(&mut more);
                    proof { crate::model::lemma_append_deep_view(c0, m0, st.cell_runs); }
                }
                true
            } else if body {
                body_paragraph_exec(st, runs)
            } else {
                true
            }
        },
    }
}

fn end_event(st: &mut ParseState, l: &Vec<char>) -> (ok: bool)
    ensures
        ok == (l@ == "p"@ ==> para_end_defined(old(st).deep_view())),
        ok ==> final(st).deep_view() == end_step(old(st).deep_view(), l@),
{
    if is_str(l, "p") {
        return end_paragraph_exec(st);
    }
    if is_str(l, "t") {
        st.in_text = false;
    } else if is_str(l, "r") {
        end_run_exec(st);
    } else if is_str(l, "hyperlink") {
        st.hyperlink = None;
    } else if is_str(l, "tc") {
        end_cell_exec(st);
    } else if is_str(l, "tr") {
        end_row_exec(st);
    } else if is_str(l, "tbl") {
        end_table_exec(st);
    } else if is_str(l, "drawing") {
        end_drawing_exec(st);
    }
    true
}

/// One non-terminal event; false where the step is undefined.
fn apply_event(st: &mut ParseState, ev: &XmlEvent, ctx: &ParseContext) -> (ok: bool)
    ensures
        ok == step_defined(old(st).deep_view(), ev.deep_view()),
        ok ==> final(st).deep_view() == step(old(st).deep_view(), ev.deep_view(), ctx.deep_view()),
{
    match ev {
        XmlEvent::Start { name, attrs } => {
            let l = local_name_of(name.as_str());
            start_event(st, &l, attrs, ctx);
            true
        },
        XmlEvent::Empty { name, attrs } => {
            let l = local_name_of(name.as_str());
            empty_event(st, &l, attrs, ctx);
            true
        },
        XmlEvent::Text { raw } => {
            text_event(st, raw.as_str());
            true
        },
        XmlEvent::End { name } => {
            let l = local_name_of(name.as_str());
            end_event(st, &l)
        },
        _ => true,
    }
}

/// The document of the final state.
fn finish_exec(st: ParseState) -> (d: Document)
    ensures
        d.deep_view() == finish(st.deep_view()),
{
    let ghost s = st.deep_view();
    let mut elements = st.elements;
    if st.list_items.len() > 0 {
        let l = Element::List { ordered: st.list_ordered, items: st.list_items };
        let ghost before = elements;
        elements.push(l);
        proof { lemma_push_deep_view(before, elements, l); }
    }
    Document { title: st.title, elements }
}

/// The value of a parse outcome.
pub open spec fn outcome_view(r: Option<Result<Document, DocError>>) -> Option<Result<DocumentV, DocErrorV>> {
    match r {
        Some(Ok(d)) => Some(Ok(d.deep_view())),
        Some(Err(e)) => Some(Err(e.deep_view())),
        None => None,
    }
}

/// Runs the parser over `events`: the document at the end of file, the
/// reader's error as `DocError::Xml`, or `None` where a `Title:` line cannot
/// be cut (see `para_end_defined`).
pub fn build_document(events: &Vec<XmlEvent>, ctx: &ParseContext) -> (r: Option<Result<Document, DocError>>)
    ensures
        outcome_view(r) == run_events(initial(), events.deep_view(), ctx.deep_view()),
{
    let mut st = initial_state();
    let mut i: usize = 0;
    let ghost evs = events.deep_view();
    let ghost c = ctx.deep_view();
    assert(evs.skip(0) =~= evs);
    while i < events.len()
        invariant
            i <= events.len(),
            evs == events.deep_view(),
            c == ctx.deep_view(),
            run_events(initial(), evs, c) == run_events(st.deep_view(), evs.skip(i as int), c),
        decreases events.len() - i,
    {
        let ghost rest = evs.skip(i as int);
        assert(rest[0] == events[i as int].deep_view());
        assert(rest.drop_first() =~= evs.skip(i as int + 1));
        match &events[i] {
            XmlEvent::Eof => {
                return Some(Ok(finish_exec(st)));
            },
            XmlEvent::Error { message } => {
                return Some(Err(DocError::Xml(message.clone())));
            },
            ev => {
                if !apply_event(&mut st, ev, ctx) {
                    return None;
                }
            },
        }
        i += 1;
    }
    Some(Ok(finish_exec(st)))
}

/// Parses `word/document.xml`: the outcome of `run_events` on the events
/// the reader yields on `xml`, text not trimmed.
pub fn parse_document_xml(xml: &str, ctx: &ParseContext) -> (r: Option<Result<Document, DocError>>)
    ensures
        outcome_view(r) == run_events(initial(), xml_tokens(xml@, false), ctx.deep_view()),
{
    let events = crate::xml::xml_events(xml, false);
    build_document(&events, ctx)
}

} // verus!
