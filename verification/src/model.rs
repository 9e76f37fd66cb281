//! Core domain model for a parsed Word document, and its mathematical view.
//!
//! Every executable type here has a `DeepView` into plain mathematical values
//! (`Seq<char>` for text), over which the contracts of the other modules are
//! written.
use vstd::prelude::*;

verus! {

// ── Document root ─────────────────────────────────────────────────────────────

/// A parsed document: an optional title and the block elements in order.
#[derive(Debug, Default)]
pub struct Document {
    /// Optional document title extracted from a "Title:" line or the first Heading 1.
    pub title: Option<String>,
    /// Top-level content blocks in document order.
    pub elements: Vec<Element>,
}

// ── Block-level elements ──────────────────────────────────────────────────────

/// A block-level element.
#[derive(Debug)]
pub enum Element {
    /// A heading (level 1–4).
    Heading { level: u8, runs: Vec<Run> },
    /// A body paragraph.
    Paragraph { runs: Vec<Run> },
    /// A bulleted or numbered list; each item carries its own indent level.
    List { ordered: bool, items: Vec<(u8, Vec<Run>)> },
    /// A table.
    Table { rows: Vec<Vec<Cell>>, caption: Option<String> },
    /// An image already copied to `<output>/media/`.  The width is kept as
    /// the drawing extent in EMU (914400 per inch), exactly as Word stores it.
    Image { path: String, width_emu: Option<u64>, caption: Option<String> },
    /// An explicit page break.
    PageBreak,
    /// An auto-generated (or detected) table of contents.
    TocBlock,
    /// An auto-generated list of figures.
    LofBlock,
    /// An auto-generated list of tables.
    LotBlock,
}

// ── Inline runs ───────────────────────────────────────────────────────────────

/// A run of text sharing one set of formatting flags.
#[derive(Debug, Default)]
pub struct Run {
    pub text: String,
    pub bold: bool,
    pub italic: bool,
    pub underline: bool,
    pub superscript: bool,
    pub subscript: bool,
    /// Monospace / code style.
    pub mono: bool,
    /// Hyperlink target URL if this run is a link.
    pub hyperlink: Option<String>,
}

// ── Table cell ────────────────────────────────────────────────────────────────

/// A table cell: a sequence of runs.
#[derive(Debug, Default)]
pub struct Cell {
    pub runs: Vec<Run>,
}

// ── Errors ────────────────────────────────────────────────────────────────────

/// Why a document could not be read.  Each variant carries the message of
/// the underlying failure (or the name of the missing archive entry).
#[derive(Debug)]
pub enum DocError {
    /// Reading bytes failed.
    Io(String),
    /// The archive could not be opened or an entry could not be found by index.
    Zip(String),
    /// `word/document.xml` is not well-formed XML.
    Xml(String),
    /// A required archive entry is absent.
    Missing(String),
}

/// The value of a `DocError`.
pub enum DocErrorV {
    Io(Seq<char>),
    Zip(Seq<char>),
    Xml(Seq<char>),
    Missing(Seq<char>),
}

impl DeepView for DocError {
    type V = DocErrorV;

    open spec fn deep_view(&self) -> DocErrorV {
        match self {
            DocError::Io(m) => DocErrorV::Io(m@),
            DocError::Zip(m) => DocErrorV::Zip(m@),
            DocError::Xml(m) => DocErrorV::Xml(m@),
            DocError::Missing(m) => DocErrorV::Missing(m@),
        }
    }
}

/// The message shown for an error.
pub open spec fn error_message(e: DocErrorV) -> Seq<char> {
    match e {
        DocErrorV::Io(m) => "I/O error: "@ + m,
        DocErrorV::Zip(m) => "ZIP error: "@ + m,
        DocErrorV::Xml(m) => "XML parse error: "@ + m,
        DocErrorV::Missing(m) => "Required entry missing from archive: "@ + m,
    }
}

impl DocError {
    /// The message shown for this error.
    pub fn message(&self) -> (r: String)
        ensures
            r@ == error_message(self.deep_view()),
    {
        let (mut out, m) = match self {
            DocError::Io(m) => (String::from_str("I/O error: "), m),
            DocError::Zip(m) => (String::from_str("ZIP error: "), m),
            DocError::Xml(m) => (String::from_str("XML parse error: "), m),
            DocError::Missing(m) => (String::from_str("Required entry missing from archive: "), m),
        };
        out.append(m.as_str());
        out
    }
}

// ── Mathematical views ────────────────────────────────────────────────────────

/// The value of a `Run`.
pub struct RunV {
    pub text: Seq<char>,
    pub bold: bool,
    pub italic: bool,
    pub underline: bool,
    pub superscript: bool,
    pub subscript: bool,
    pub mono: bool,
    pub hyperlink: Option<Seq<char>>,
}

/// The value of an `Element`.
pub enum ElementV {
    Heading { level: u8, runs: Seq<RunV> },
    Paragraph { runs: Seq<RunV> },
    List { ordered: bool, items: Seq<(u8, Seq<RunV>)> },
    Table { rows: Seq<Seq<Seq<RunV>>>, caption: Option<Seq<char>> },
    Image { path: Seq<char>, width_emu: Option<u64>, caption: Option<Seq<char>> },
    PageBreak,
    TocBlock,
    LofBlock,
    LotBlock,
}

pub open spec fn opt_view(o: Option<String>) -> Option<Seq<char>> {
    match o {
        Some(s) => Some(s@),
        None => None,
    }
}

impl DeepView for Run {
    type V = RunV;

    open spec fn deep_view(&self) -> RunV {
        RunV {
            text: self.text@,
            bold: self.bold,
            italic: self.italic,
            underline: self.underline,
            superscript: self.superscript,
            subscript: self.subscript,
            mono: self.mono,
            hyperlink: opt_view(self.hyperlink),
        }
    }
}

impl DeepView for Cell {
    type V = Seq<RunV>;

    open spec fn deep_view(&self) -> Seq<RunV> {
        self.runs.deep_view()
    }
}

impl DeepView for Element {
    type V = ElementV;

    open spec fn deep_view(&self) -> ElementV {
        match self {
            Element::Heading { level, runs } => ElementV::Heading { level: *level, runs: runs.deep_view() },
            Element::Paragraph { runs } => ElementV::Paragraph { runs: runs.deep_view() },
            Element::List { ordered, items } => ElementV::List { ordered: *ordered, items: items.deep_view() },
            Element::Table { rows, caption } => ElementV::Table { rows: rows.deep_view(), caption: opt_view(*caption) },
            Element::Image { path, width_emu, caption } => ElementV::Image {
                path: path@,
                width_emu: *width_emu,
                caption: opt_view(*caption),
            },
            Element::PageBreak => ElementV::PageBreak,
            Element::TocBlock => ElementV::TocBlock,
            Element::LofBlock => ElementV::LofBlock,
            Element::LotBlock => ElementV::LotBlock,
        }
    }
}

/// The value of a `Document`.
pub struct DocumentV {
    pub title: Option<Seq<char>>,
    pub elements: Seq<ElementV>,
}

impl DeepView for Document {
    type V = DocumentV;

    open spec fn deep_view(&self) -> DocumentV {
        DocumentV { title: opt_view(self.title), elements: self.elements.deep_view() }
    }
}

/// Pushing onto a vector pushes the element's view onto the vector's view.
pub proof fn lemma_push_deep_view<T: DeepView>(before: Vec<T>, after: Vec<T>, x: T)
    requires
        after@ == before@.push(x),
    ensures
        after.deep_view() == before.deep_view().push(x.deep_view()),
{
    assert(after.deep_view() =~= before.deep_view().push(x.deep_view()));
}

/// Appending vectors appends their views.
pub proof fn lemma_append_deep_view<T: DeepView>(a: Vec<T>, b: Vec<T>, c: Vec<T>)
    requires
        c@ == a@ + b@,
    ensures
        c.deep_view() == a.deep_view() + b.deep_view(),
{
    assert(c.deep_view() =~= a.deep_view() + b.deep_view());
}

/// The view of a prefix of a vector extended by its next element.
pub proof fn lemma_take_next_deep_view<T: DeepView>(v: Vec<T>, i: int)
    requires
        0 <= i < v@.len(),
    ensures
        v.deep_view().take(i + 1) == v.deep_view().take(i).push(v@[i].deep_view()),
{
    assert(v.deep_view().take(i + 1) =~= v.deep_view().take(i).push(v@[i].deep_view()));
}

// ── Texts ─────────────────────────────────────────────────────────────────────

/// The plain text of a run sequence: the run texts concatenated.
pub open spec fn runs_text(runs: Seq<RunV>) -> Seq<char>
    decreases runs.len(),
{
    if runs.len() == 0 {
        Seq::empty()
    } else {
        runs_text(runs.drop_last()) + runs.last().text
    }
}

/// The plain text of a run sequence.
pub fn concat_runs(runs: &Vec<Run>) -> (r: Vec<char>)
    ensures
        r@ == runs_text(runs.deep_view()),
{
    let mut r: Vec<char> = Vec::new();
    let mut i: usize = 0;
    while i < runs.len()
        invariant
            i <= runs.len(),
            r@ == runs_text(runs.deep_view().take(i as int)),
        decreases runs.len() - i,
    {
        let t = crate::text::chars_of(runs[i].text.as_str());
        let mut j: usize = 0;
        let ghost before = r@;
        while j < t.len()
            invariant
                j <= t.len(),
                r@ == before + t@.take(j as int),
            decreases t.len() - j,
        {
            r.push(t[j]);
            j += 1;
            assert(r@ =~= before + t@.take(j as int));
        }
        proof {
            lemma_take_next_deep_view(*runs, i as int);
            assert(runs.deep_view().take(i + 1).drop_last() =~= runs.deep_view().take(i as int));
            assert(t@.take(j as int) =~= t@);
        }
        i += 1;
    }
    assert(runs.deep_view().take(i as int) =~= runs.deep_view());
    r
}

// ── Copies ────────────────────────────────────────────────────────────────────

pub fn copy_opt_string(o: &Option<String>) -> (r: Option<String>)
    ensures
        opt_view(r) == opt_view(*o),
{
    match o {
        Some(s) => Some(s.clone()),
        None => None,
    }
}

impl Run {
    /// A copy of this run.
    pub fn copy(&self) -> (r: Run)
        ensures
            r.deep_view() == self.deep_view(),
    {
        Run {
            text: self.text.clone(),
            bold: self.bold,
            italic: self.italic,
            underline: self.underline,
            superscript: self.superscript,
            subscript: self.subscript,
            mono: self.mono,
            hyperlink: copy_opt_string(&self.hyperlink),
        }
    }
}

pub fn copy_runs(runs: &Vec<Run>) -> (r: Vec<Run>)
    ensures
        r.deep_view() == runs.deep_view(),
{
    let mut out: Vec<Run> = Vec::new();
    let mut i: usize = 0;
    while i < runs.len()
        invariant
            i <= runs.len(),
            out.deep_view() == runs.deep_view().take(i as int),
        decreases runs.len() - i,
    {
        let x = runs[i].copy();
        let ghost before = out;
        proof { lemma_take_next_deep_view(*runs, i as int); }
        out.push(x);
        proof { lemma_push_deep_view(before, out, x); }
        i += 1;
    }
    assert(runs.deep_view().take(i as int) =~= runs.deep_view());
    out
}

pub fn copy_items(items: &Vec<(u8, Vec<Run>)>) -> (r: Vec<(u8, Vec<Run>)>)
    ensures
        r.deep_view() == items.deep_view(),
{
    let mut out: Vec<(u8, Vec<Run>)> = Vec::new();
    let mut i: usize = 0;
    while i < items.len()
        invariant
            i <= items.len(),
            out.deep_view() == items.deep_view().take(i as int),
        decreases items.len() - i,
    {
        let x = (items[i].0, copy_runs(&items[i].1));
        let ghost before = out;
        proof { lemma_take_next_deep_view(*items, i as int); }
        out.push(x);
        proof { lemma_push_deep_view(before, out, x); }
        i += 1;
    }
    assert(items.deep_view().take(i as int) =~= items.deep_view());
    out
}

pub fn copy_row(row: &Vec<Cell>) -> (r: Vec<Cell>)
    ensures
        r.deep_view() == row.deep_view(),
{
    let mut out: Vec<Cell> = Vec::new();
    let mut i: usize = 0;
    while i < row.len()
        invariant
            i <= row.len(),
            out.deep_view() == row.deep_view().take(i as int),
        decreases row.len() - i,
    {
        let x = Cell { runs: copy_runs(&row[i].runs) };
        let ghost before = out;
        proof { lemma_take_next_deep_view(*row, i as int); }
        out.push(x);
        proof { lemma_push_deep_view(before, out, x); }
        i += 1;
    }
    assert(row.deep_view().take(i as int) =~= row.deep_view());
    out
}

pub fn copy_rows(rows: &Vec<Vec<Cell>>) -> (r: Vec<Vec<Cell>>)
    ensures
        r.deep_view() == rows.deep_view(),
{
    let mut out: Vec<Vec<Cell>> = Vec::new();
    let mut i: usize = 0;
    while i < rows.len()
        invariant
            i <= rows.len(),
            out.deep_view() == rows.deep_view().take(i as int),
        decreases rows.len() - i,
    {
        let x = copy_row(&rows[i]);
        let ghost before = out;
        proof { lemma_take_next_deep_view(*rows, i as int); }
        out.push(x);
        proof { lemma_push_deep_view(before, out, x); }
        i += 1;
    }
    assert(rows.deep_view().take(i as int) =~= rows.deep_view());
    out
}

impl Element {
    /// A copy of this element.
    pub fn copy(&self) -> (r: Element)
        ensures
            r.deep_view() == self.deep_view(),
    {
        match self {
            Element::Heading { level, runs } => Element::Heading { level: *level, runs: copy_runs(runs) },
            Element::Paragraph { runs } => Element::Paragraph { runs: copy_runs(runs) },
            Element::List { ordered, items } => Element::List { ordered: *ordered, items: copy_items(items) },
            Element::Table { rows, caption } => Element::Table { rows: copy_rows(rows), caption: copy_opt_string(caption) },
            Element::Image { path, width_emu, caption } => Element::Image {
                path: path.clone(),
                width_emu: *width_emu,
                caption: copy_opt_string(caption),
            },
            Element::PageBreak => Element::PageBreak,
            Element::TocBlock => Element::TocBlock,
            Element::LofBlock => Element::LofBlock,
            Element::LotBlock => Element::LotBlock,
        }
    }
}

} // verus!
