//! A `.docx` package: a ZIP archive read with the `zip` crate, and the
//! assembly of a document from its parts.
use vstd::prelude::*;
use std::io::Cursor;
use zip::result::ZipError;
use zip::ZipArchive;
use crate::model::{Document, DocumentV, DocError, DocErrorV};
use crate::text::starts_with;
use crate::xml::{XmlEventV, xml_events, xml_tokens};
use crate::docx::{
    Numbering, NumberingV, lookup, lookup_exec, rels_from, relationship_map, styles_from, no_styles, style_map,
    numbering_from, no_numbering, numbering_of, empty_numbering,
};
use crate::document_xml::{
    ParseContext, ParseContextV, initial, run_events, outcome_view, parse_document_xml,
};
use crate::normalizer::{normalize, normalized};

verus! {

broadcast use vstd::string::group_string_axioms;

#[verifier::external_type_specification]
#[verifier::external_body]
#[verifier::reject_recursive_types(R)]
pub struct ExZipArchive<R>(ZipArchive<R>);

#[verifier::external_type_specification]
#[verifier::external_body]
pub struct ExZipError(ZipError);

#[verifier::external_type_specification]
#[verifier::external_body]
#[verifier::reject_recursive_types(T)]
pub struct ExCursor<T>(Cursor<T>);

/// The names of an archive's entries, in the order `by_index` numbers them.
pub uninterp spec fn zip_names(a: ZipArchive<Cursor<Vec<u8>>>) -> Seq<Seq<char>>;

/// The entries of an archive that `by_index` and `by_name` open (an
/// encrypted entry or one with an unsupported compression method does not).
pub uninterp spec fn zip_openable(a: ZipArchive<Cursor<Vec<u8>>>) -> Set<Seq<char>>;

/// The decompressed bytes of the entries of an archive that open and read to
/// their end without error, by name.
pub uninterp spec fn zip_contents(a: ZipArchive<Cursor<Vec<u8>>>) -> Map<Seq<char>, Seq<u8>>;

/// The names of the entries that `ZipArchive::new` reads from the bytes,
/// in the order `by_index` numbers them; `None` where it fails.
pub uninterp spec fn zip_archive_names(bytes: Seq<u8>) -> Option<Seq<Seq<char>>>;

/// `ZipArchive::new` over the bytes of a file: it succeeds exactly when the
/// bytes read as an archive, whose entries are those read from the bytes.
#[verifier::external_body]
fn zip_open(bytes: Vec<u8>) -> (r: Result<ZipArchive<Cursor<Vec<u8>>>, ZipError>)
    ensures
        r is Ok == zip_archive_names(bytes@) is Some,
        r matches Ok(a) ==> zip_archive_names(bytes@) == Some(zip_names(a)),
{
    ZipArchive::new(Cursor::new(bytes))
}

/// The `Display` text of a `ZipError`.
#[verifier::external_body]
fn zip_error_text(e: &ZipError) -> String {
    e.to_string()
}

/// `ZipArchive::len`: the number of entries.
#[verifier::external_body]
fn zip_len(a: &ZipArchive<Cursor<Vec<u8>>>) -> (n: usize)
    ensures
        n == zip_names(*a).len(),
{
    a.len()
}

/// `ZipArchive::by_index` followed by `ZipFile::name`: the name of entry
/// `i`, or `None` when there is no such entry or it does not open.  Reading
/// changes neither the entries nor their contents.
#[verifier::external_body]
fn zip_name_at(a: &mut ZipArchive<Cursor<Vec<u8>>>, i: usize) -> (r: Option<String>)
    ensures
        zip_names(*final(a)) == zip_names(*old(a)),
        zip_openable(*final(a)) == zip_openable(*old(a)),
        zip_contents(*final(a)) == zip_contents(*old(a)),
        r is Some == (i < zip_names(*old(a)).len() && zip_openable(*old(a)).contains(zip_names(*old(a))[i as int])),
        r matches Some(n) ==> i < zip_names(*old(a)).len() && n@ == zip_names(*old(a))[i as int],
{
    a.by_index(i).ok().map(|f| f.name().to_owned())
}

/// Reading one entry: the archive could not open it (with the archive
/// reader's message), it could not be read (with the I/O error's message),
/// or its contents.
pub enum EntryRead<T> {
    Failed(String),
    Unreadable(String),
    Read(T),
}

/// `ZipArchive::by_name`, then `Read::read_to_string` on the entry.  Opening
/// fails (with `FileNotFound`) for a name that is not an entry, and for an
/// entry that does not open; reading succeeds for an entry that reads to its
/// end and is UTF-8, and gives its bytes decoded.  Reading changes neither
/// the entries nor their contents.
#[verifier::external_body]
fn zip_read_text(a: &mut ZipArchive<Cursor<Vec<u8>>>, name: &str) -> (r: EntryRead<String>)
    ensures
        zip_names(*final(a)) == zip_names(*old(a)),
        zip_openable(*final(a)) == zip_openable(*old(a)),
        zip_contents(*final(a)) == zip_contents(*old(a)),
        !zip_names(*old(a)).contains(name@) ==> r is Failed,
        r is Failed == !(zip_names(*old(a)).contains(name@) && zip_openable(*old(a)).contains(name@)),
        r is Read == (zip_names(*old(a)).contains(name@) && zip_openable(*old(a)).contains(name@)
            && zip_contents(*old(a)).contains_key(name@) && vstd::utf8::valid_utf8(zip_contents(*old(a))[name@])),
        r matches EntryRead::Read(s) ==> zip_contents(*old(a)).contains_key(name@)
            && vstd::utf8::encode_utf8(s@) == zip_contents(*old(a))[name@],
{
    let mut s = String::new();
    match a.by_name(name) {
        Err(e) => EntryRead::Failed(e.to_string()),
        Ok(mut f) => match std::io::Read::read_to_string(&mut f, &mut s) {
            Ok(_) => EntryRead::Read(s),
            Err(e) => EntryRead::Unreadable(e.to_string()),
        },
    }
}

/// `ZipArchive::by_name`, then `Read::read_to_end` on the entry.  Opening
/// fails for a name that is not an entry, and for an entry that does not
/// open; reading succeeds for an entry that reads to its end, and gives its
/// contents.  Reading changes neither the entries nor their contents.
#[verifier::external_body]
fn zip_read_bytes(a: &mut ZipArchive<Cursor<Vec<u8>>>, name: &str) -> (r: EntryRead<Vec<u8>>)
    ensures
        zip_names(*final(a)) == zip_names(*old(a)),
        zip_openable(*final(a)) == zip_openable(*old(a)),
        zip_contents(*final(a)) == zip_contents(*old(a)),
        !zip_names(*old(a)).contains(name@) ==> r is Failed,
        r is Failed == !(zip_names(*old(a)).contains(name@) && zip_openable(*old(a)).contains(name@)),
        r is Read == (zip_names(*old(a)).contains(name@) && zip_openable(*old(a)).contains(name@)
            && zip_contents(*old(a)).contains_key(name@)),
        r matches EntryRead::Read(d) ==> zip_contents(*old(a)).contains_key(name@) && d@ == zip_contents(
            *old(a),
        )[name@],
{
    let mut data: Vec<u8> = Vec::new();
    match a.by_name(name) {
        Err(e) => EntryRead::Failed(e.to_string()),
        Ok(mut f) => match std::io::Read::read_to_end(&mut f, &mut data) {
            Ok(_) => EntryRead::Read(data),
            Err(e) => EntryRead::Unreadable(e.to_string()),
        },
    }
}

// ── Assembling a document ────────────────────────────────────────────────────

/// Relationship targets with renamed media files followed: a target that
/// `renames` maps (last mapping of it) is replaced.
pub open spec fn patched(rels: Seq<(Seq<char>, Seq<char>)>, renames: Seq<(Seq<char>, Seq<char>)>) -> Seq<
    (Seq<char>, Seq<char>),
> {
    rels.map_values(
        |e: (Seq<char>, Seq<char>)|
            (e.0, match lookup(renames, e.1) {
                Some(n) => n,
                None => e.1,
            }),
    )
}

/// Following renames changes targets only: every relationship keeps its id
/// and its place, and without renames nothing changes.
pub proof fn lemma_patch_keeps_ids(rels: Seq<(Seq<char>, Seq<char>)>, renames: Seq<(Seq<char>, Seq<char>)>)
    ensures
        patched(rels, renames).len() == rels.len(),
        forall|i: int| 0 <= i < rels.len() ==> (#[trigger] patched(rels, renames)[i]).0 == rels[i].0,
        renames.len() == 0 ==> patched(rels, renames) == rels,
{
    if renames.len() == 0 {
        assert(patched(rels, renames) =~= rels);
    }
}

/// A target that a rename maps is replaced by the last new name given for it.
pub proof fn lemma_patch_follows_renames(
    rels: Seq<(Seq<char>, Seq<char>)>,
    renames: Seq<(Seq<char>, Seq<char>)>,
    i: int,
)
    requires
        0 <= i < rels.len(),
    ensures
        patched(rels, renames)[i].1 == match lookup(renames, rels[i].1) {
            Some(n) => n,
            None => rels[i].1,
        },
{
}

/// Follows renamed media files in the relationship targets.
pub fn patch_targets(rels: Vec<(String, String)>, renames: &Vec<(String, String)>) -> (r: Vec<(String, String)>)
    ensures
        r.deep_view() == patched(rels.deep_view(), renames.deep_view()),
{
    let mut out: Vec<(String, String)> = Vec::new();
    let mut i: usize = 0;
    while i < rels.len()
        invariant
            i <= rels.len(),
            out.deep_view() == patched(rels.deep_view().take(i as int), renames.deep_view()),
        decreases rels.len() - i,
    {
        let target = match lookup_exec(renames, rels[i].1.as_str()) {
            Some(n) => n,
            None => rels[i].1.clone(),
        };
        let e = (rels[i].0.clone(), target);
        let ghost before = out;
        out.push(e);
        proof { crate::model::lemma_push_deep_view(before, out, e); }
        i += 1;
        assert(out.deep_view() =~= patched(rels.deep_view().take(i as int), renames.deep_view()));
    }
    assert(rels.deep_view().take(i as int) =~= rels.deep_view());
    out
}

/// The outcome of reading the body's events with the given parts, the
/// document's elements normalized.
pub open spec fn document_outcome(evs: Seq<XmlEventV>, ctx: ParseContextV) -> Option<Result<DocumentV, DocErrorV>> {
    match run_events(initial(), evs, ctx) {
        Some(Ok(d)) => Some(Ok(DocumentV { title: d.title, elements: normalized(d.elements) })),
        other => other,
    }
}

pub open spec fn context_of(
    styles: Seq<(Seq<char>, Seq<char>)>,
    rels: Seq<(Seq<char>, Seq<char>)>,
    numbering: NumberingV,
    renames: Seq<(Seq<char>, Seq<char>)>,
) -> ParseContextV {
    ParseContextV { styles, rels: patched(rels, renames), numbering }
}

/// Builds the document from the text of `word/document.xml` and the other
/// parts, relationship targets following renamed media files, and
/// normalizes its elements.  `None` where a `Title:` line cannot be cut.
pub fn assemble(
    xml: &str,
    styles: Vec<(String, String)>,
    rels: Vec<(String, String)>,
    numbering: Numbering,
    renames: &Vec<(String, String)>,
) -> (r: Option<Result<Document, DocError>>)
    ensures
        outcome_view(r) == document_outcome(
            xml_tokens(xml@, false),
            context_of(styles.deep_view(), rels.deep_view(), numbering@, renames.deep_view()),
        ),
{
    let ghost c = context_of(styles.deep_view(), rels.deep_view(), numbering@, renames.deep_view());
    let ctx = ParseContext { styles, rels: patch_targets(rels, renames), numbering };
    assert(ctx.deep_view() == c);
    let r = parse_document_xml(xml, &ctx);
    match r {
        Some(Ok(doc)) => {
            let d = Document { title: doc.title, elements: normalize(doc.elements) };
            Some(Ok(d))
        },
        other => other,
    }
}

// ── The package ──────────────────────────────────────────────────────────────

/// The entries under `word/media/` that open, in archive order.
pub open spec fn media_entries(names: Seq<Seq<char>>, opens: Set<Seq<char>>) -> Seq<Seq<char>>
    decreases names.len(),
{
    if names.len() == 0 {
        Seq::empty()
    } else {
        let rest = media_entries(names.drop_last(), opens);
        let n = names.last();
        if starts_with(n, "word/media/"@) && opens.contains(n) {
            rest.push(n)
        } else {
            rest
        }
    }
}

/// An opened `.docx` package.
pub struct Package {
    archive: ZipArchive<Cursor<Vec<u8>>>,
}

/// The entry read by `read_entry` and `read_media` is absent, with its name.
pub open spec fn missing(name: Seq<char>) -> DocErrorV {
    DocErrorV::Missing(name)
}

impl Package {
    /// The names of the package's entries.
    pub closed spec fn entry_names(&self) -> Seq<Seq<char>> {
        zip_names(self.archive)
    }

    /// The bytes of the package's entries that open and read to their end,
    /// by name.
    pub closed spec fn entry_bytes(&self) -> Map<Seq<char>, Seq<u8>> {
        zip_contents(self.archive)
    }

    /// The package's entries that the archive opens.
    pub closed spec fn entry_opens(&self) -> Set<Seq<char>> {
        zip_openable(self.archive)
    }

    /// `name` is an entry that the archive opens.
    pub open spec fn opens(&self, name: Seq<char>) -> bool {
        self.entry_names().contains(name) && self.entry_opens().contains(name)
    }

    /// The text of an entry that opens, reads to its end and is UTF-8.
    pub open spec fn text_part(&self, name: Seq<char>) -> Option<Seq<char>> {
        if self.opens(name) && self.entry_bytes().contains_key(name) && vstd::utf8::valid_utf8(
            self.entry_bytes()[name],
        ) {
            Some(vstd::utf8::decode_utf8(self.entry_bytes()[name]))
        } else {
            None
        }
    }

    /// Opens the bytes of a `.docx` file as a ZIP archive; a failure is a
    /// `DocError::Zip` with the archive reader's message.
    pub fn open(bytes: Vec<u8>) -> (r: Result<Package, DocError>)
        ensures
            r is Ok == zip_archive_names(bytes@) is Some,
            r matches Ok(p) ==> zip_archive_names(bytes@) == Some(p.entry_names()),
            r matches Err(e) ==> e is Zip,
    {
        match zip_open(bytes) {
            Ok(archive) => Ok(Package { archive }),
            Err(e) => Err(DocError::Zip(zip_error_text(&e))),
        }
    }

    /// Reads a named entry as UTF-8 text.  An entry that cannot be opened is
    /// `Missing` with its name (always so for a name that is not an entry);
    /// one that cannot be read as text is an `Io` error.
    pub fn read_entry(&mut self, name: &str) -> (r: Result<String, DocError>)
        ensures
            final(self).entry_names() == old(self).entry_names(),
            final(self).entry_bytes() == old(self).entry_bytes(),
            final(self).entry_opens() == old(self).entry_opens(),
            r is Ok == old(self).text_part(name@) is Some,
            r matches Ok(s) ==> old(self).text_part(name@) == Some(s@),
            !old(self).opens(name@) ==> (r matches Err(e) && e.deep_view() == missing(name@)),
            old(self).opens(name@) && old(self).text_part(name@) is None ==> (r matches Err(e) && e is Io),
            !old(self).entry_names().contains(name@) ==> (r matches Err(e) && e.deep_view() == missing(name@)),
            r matches Err(e) ==> e.deep_view() == missing(name@) || e is Io,
            r matches Ok(s) ==> old(self).entry_bytes().contains_key(name@)
                && vstd::utf8::encode_utf8(s@) == old(self).entry_bytes()[name@],
    {
        match zip_read_text(&mut self.archive, name) {
            EntryRead::Failed(_) => Err(DocError::Missing(String::from_str(name))),
            EntryRead::Unreadable(m) => Err(DocError::Io(m)),
            EntryRead::Read(s) => {
                proof { vstd::utf8::encode_utf8_decode_utf8(s@); }
                Ok(s)
            },
        }
    }

    /// The entries under `word/media/`, in archive order; entries the archive
    /// cannot open are left out.
    pub fn media_names(&mut self) -> (r: Vec<String>)
        ensures
            final(self).entry_names() == old(self).entry_names(),
            final(self).entry_bytes() == old(self).entry_bytes(),
            final(self).entry_opens() == old(self).entry_opens(),
            r.deep_view() == media_entries(old(self).entry_names(), old(self).entry_opens()),
            forall|k: int| 0 <= k < r.len() ==> starts_with((#[trigger] r@[k])@, "word/media/"@)
                && old(self).entry_names().contains(r@[k]@),
    {
        let ghost names = zip_names(self.archive);
        let n = zip_len(&self.archive);
        let mut out: Vec<String> = Vec::new();
        let mut i: usize = 0;
        while i < n
            invariant
                i <= n,
                n == names.len(),
                zip_names(self.archive) == names,
                zip_contents(self.archive) == zip_contents(old(self).archive),
                zip_openable(self.archive) == zip_openable(old(self).archive),
                out.deep_view() == media_entries(names.take(i as int), zip_openable(old(self).archive)),
                forall|k: int| 0 <= k < out.len() ==> starts_with((#[trigger] out@[k])@, "word/media/"@)
                    && names.contains(out@[k]@),
            decreases n - i,
        {
            assert(names.take(i as int + 1).drop_last() =~= names.take(i as int));
            assert(names.take(i as int + 1).last() == names[i as int]);
            match zip_name_at(&mut self.archive, i) {
                Some(name) => {
                    let c = crate::text::chars_of(name.as_str());
                    if crate::text::starts_with_str(&c, "word/media/") {
                        assert(names[i as int] == name@);
                        let ghost before = out;
                        out.push(name);
                        proof { crate::model::lemma_push_deep_view(before, out, name); }
                    }
                },
                None => {},
            }
            i += 1;
        }
        assert(names.take(i as int) =~= names);
        out
    }

    /// Reads the bytes of a media entry.  An entry the archive cannot open
    /// is a `Zip` error (always so for a name that is not an entry); one that
    /// cannot be read is an `Io` error.
    pub fn read_media(&mut self, name: &str) -> (r: Result<Vec<u8>, DocError>)
        ensures
            final(self).entry_names() == old(self).entry_names(),
            final(self).entry_bytes() == old(self).entry_bytes(),
            final(self).entry_opens() == old(self).entry_opens(),
            r is Ok == (old(self).opens(name@) && old(self).entry_bytes().contains_key(name@)),
            !old(self).opens(name@) ==> (r matches Err(e) && e is Zip),
            old(self).opens(name@) && !old(self).entry_bytes().contains_key(name@) ==> (r matches Err(e) && e is Io),
            !old(self).entry_names().contains(name@) ==> (r matches Err(e) && e is Zip),
            r matches Err(e) ==> e is Zip || e is Io,
            r matches Ok(d) ==> old(self).entry_bytes().contains_key(name@) && d@ == old(self).entry_bytes()[name@],
    {
        match zip_read_bytes(&mut self.archive, name) {
            EntryRead::Failed(m) => Err(DocError::Zip(m)),
            EntryRead::Unreadable(m) => Err(DocError::Io(m)),
            EntryRead::Read(data) => Ok(data),
        }
    }

    /// The relationship targets of `word/_rels/document.xml.rels`; none when
    /// the part is absent or unreadable.
    pub fn read_relationships(&mut self) -> (r: Vec<(String, String)>)
        ensures
            final(self).entry_names() == old(self).entry_names(),
            final(self).entry_bytes() == old(self).entry_bytes(),
            final(self).entry_opens() == old(self).entry_opens(),
            !old(self).entry_names().contains("word/_rels/document.xml.rels"@) ==> r.len() == 0,
            r.deep_view() == match old(self).text_part("word/_rels/document.xml.rels"@) {
                Some(t) => rels_from(xml_tokens(t, true)),
                None => Seq::empty(),
            },
    {
        match zip_read_text(&mut self.archive, "word/_rels/document.xml.rels") {
            EntryRead::Read(xml) => {
                proof { vstd::utf8::encode_utf8_decode_utf8(xml@); }
                let events = xml_events(xml.as_str(), true);
                relationship_map(&events)
            },
            _ => {
                let v: Vec<(String, String)> = Vec::new();
                assert(v.deep_view() =~= Seq::<(Seq<char>, Seq<char>)>::empty());
                v
            },
        }
    }

    /// The style names of `word/styles.xml`: none when the part is absent,
    /// an `Io` error when it cannot be read as text.
    pub fn read_styles(&mut self) -> (r: Result<Vec<(String, String)>, DocError>)
        ensures
            final(self).entry_names() == old(self).entry_names(),
            final(self).entry_bytes() == old(self).entry_bytes(),
            final(self).entry_opens() == old(self).entry_opens(),
            !old(self).entry_names().contains("word/styles.xml"@) ==> (r matches Ok(m) && m.len() == 0),
            r matches Err(e) ==> e is Io,
            match old(self).text_part("word/styles.xml"@) {
                Some(t) => r matches Ok(m) && m.deep_view() == styles_from(no_styles(), xml_tokens(t, true)),
                None => if old(self).opens("word/styles.xml"@) {
                    r is Err
                } else {
                    r matches Ok(m) && m.len() == 0
                },
            },
    {
        match zip_read_text(&mut self.archive, "word/styles.xml") {
            EntryRead::Read(xml) => {
                proof { vstd::utf8::encode_utf8_decode_utf8(xml@); }
                let events = xml_events(xml.as_str(), true);
                Ok(style_map(&events))
            },
            EntryRead::Unreadable(m) => Err(DocError::Io(m)),
            EntryRead::Failed(_) => Ok(Vec::new()),
        }
    }

    /// The numbering definitions of `word/numbering.xml`; none when the part
    /// is absent or unreadable.
    pub fn read_numbering(&mut self) -> (r: Numbering)
        ensures
            final(self).entry_names() == old(self).entry_names(),
            final(self).entry_bytes() == old(self).entry_bytes(),
            final(self).entry_opens() == old(self).entry_opens(),
            !old(self).entry_names().contains("word/numbering.xml"@) ==> r@ == empty_numbering(),
            match old(self).text_part("word/numbering.xml"@) {
                Some(t) => r@ == numbering_from(no_numbering(), xml_tokens(t, true)),
                None => r@ == empty_numbering(),
            },
    {
        match zip_read_text(&mut self.archive, "word/numbering.xml") {
            EntryRead::Read(xml) => {
                proof { vstd::utf8::encode_utf8_decode_utf8(xml@); }
                let events = xml_events(xml.as_str(), true);
                numbering_of(&events)
            },
            _ => Numbering::empty(),
        }
    }

    /// The relationships of `word/_rels/document.xml.rels`: none when the
    /// part cannot be read as text.
    pub open spec fn relationships_part(&self) -> Seq<(Seq<char>, Seq<char>)> {
        match self.text_part("word/_rels/document.xml.rels"@) {
            Some(t) => rels_from(xml_tokens(t, true)),
            None => Seq::empty(),
        }
    }

    /// The style names of `word/styles.xml`: none when the part cannot be
    /// read as text.
    pub open spec fn styles_part(&self) -> Seq<(Seq<char>, Seq<char>)> {
        match self.text_part("word/styles.xml"@) {
            Some(t) => styles_from(no_styles(), xml_tokens(t, true)),
            None => Seq::empty(),
        }
    }

    /// The numbering definitions of `word/numbering.xml`: none when the part
    /// cannot be read as text.
    pub open spec fn numbering_part(&self) -> NumberingV {
        match self.text_part("word/numbering.xml"@) {
            Some(t) => numbering_from(no_numbering(), xml_tokens(t, true)),
            None => empty_numbering(),
        }
    }

    /// Reads the document: relationships (following `renames`), styles (an
    /// unreadable styles part counts as none), numbering and the body, then
    /// normalizes the elements.  A body that cannot be opened is `Missing`;
    /// one that cannot be read as text is an `Io` error.  `None` where a
    /// `Title:` line cannot be cut.
    pub fn parse_document(&mut self, renames: &Vec<(String, String)>) -> (r: Option<Result<Document, DocError>>)
        ensures
            final(self).entry_names() == old(self).entry_names(),
            final(self).entry_bytes() == old(self).entry_bytes(),
            final(self).entry_opens() == old(self).entry_opens(),
            match old(self).text_part("word/document.xml"@) {
                Some(t) => outcome_view(r) == document_outcome(
                    xml_tokens(t, false),
                    context_of(
                        old(self).styles_part(),
                        old(self).relationships_part(),
                        old(self).numbering_part(),
                        renames.deep_view(),
                    ),
                ),
                None => if old(self).opens("word/document.xml"@) {
                    r matches Some(Err(e)) && e is Io
                } else {
                    outcome_view(r) == Some(Err::<DocumentV, DocErrorV>(missing("word/document.xml"@)))
                },
            },
    {
        let ghost p0 = *self;
        let rels = self.read_relationships();
        let styles = match self.read_styles() {
            Ok(s) => s,
            Err(_) => {
                let v: Vec<(String, String)> = Vec::new();
                assert(v.deep_view() =~= Seq::<(Seq<char>, Seq<char>)>::empty());
                v
            },
        };
        proof {
            if p0.text_part("word/styles.xml"@) is None {
                assert(styles.deep_view() =~= Seq::<(Seq<char>, Seq<char>)>::empty());
            }
        }
        let numbering = self.read_numbering();
        let xml = match self.read_entry("word/document.xml") {
            Ok(x) => x,
            Err(e) => { return Some(Err(e)); },
        };
        assemble(xml.as_str(), styles, rels, numbering, renames)
    }
}

} // verus!
