//! Reading a `.docx`: the document, style, relationship and numbering parts.
//!
//! Each XML part is tokenized by `quick_xml` (see `xml`), and everything that
//! is decided from the events is verified here against a state-machine
//! specification over the events' values.
use vstd::prelude::*;
use crate::model::{opt_view, lemma_push_deep_view};
use crate::text::{
    CharClass, lead_count, lead_len, skip_lead, skip_leading, starts_with, starts_with_str, contains,
    contains_str, chars_of, slice_of, equal_chars, unicode_lowercase, lowercase_chars, parsed_uint, parse_uint,
    ends_with, push_char,
};
use crate::xml::{XmlAttr, XmlAttrV, XmlEvent, XmlEventV, is_terminal, unescape_text, xml_unescaped};
use std::collections::HashMap;

verus! {

broadcast use {vstd::string::group_string_axioms, vstd::std_specs::hash::group_hash_axioms};

// ── Names and attributes ─────────────────────────────────────────────────────

/// The local part of a qualified XML name: everything after the first `:`
/// (`QName::local_name`).
pub open spec fn local_name(q: Seq<char>) -> Seq<char> {
    let n = lead_count(q, CharClass::Except(':'));
    if n < q.len() {
        q.skip(n as int + 1)
    } else {
        q
    }
}

/// Strip the XML namespace prefix (e.g. `w:p` → `p`).
pub fn local_name_of(q: &str) -> (r: Vec<char>)
    ensures
        r@ == local_name(q@),
{
    let v = chars_of(q);
    let n = lead_len(&v, 0, &CharClass::Except(':'));
    assert(v@.skip(0) =~= v@);
    if n < v.len() {
        let r = slice_of(&v, n + 1, v.len());
        assert(r@ =~= v@.skip(n as int + 1));
        r
    } else {
        v
    }
}

pub fn is_str(v: &Vec<char>, s: &str) -> (b: bool)
    ensures
        b == (v@ == s@),
{
    let c = chars_of(s);
    equal_chars(v, &c)
}

/// The value of the last attribute whose local name is `key`.
pub open spec fn attr_value(attrs: Seq<XmlAttrV>, key: Seq<char>) -> Option<Seq<char>>
    decreases attrs.len(),
{
    if attrs.len() == 0 {
        None
    } else if local_name(attrs.last().key) == key {
        Some(attrs.last().value)
    } else {
        attr_value(attrs.drop_last(), key)
    }
}

/// The value of the first attribute whose local name is `key`.
pub open spec fn attr_first(attrs: Seq<XmlAttrV>, key: Seq<char>) -> Option<Seq<char>>
    decreases attrs.len(),
{
    if attrs.len() == 0 {
        None
    } else if local_name(attrs[0].key) == key {
        Some(attrs[0].value)
    } else {
        attr_first(attrs.drop_first(), key)
    }
}

/// The number in the last attribute named `key` whose value parses as an
/// unsigned integer no larger than `max`.
pub open spec fn attr_uint(attrs: Seq<XmlAttrV>, key: Seq<char>, max: nat) -> Option<nat>
    decreases attrs.len(),
{
    if attrs.len() == 0 {
        None
    } else if local_name(attrs.last().key) == key && parsed_uint(attrs.last().value, max) is Some {
        parsed_uint(attrs.last().value, max)
    } else {
        attr_uint(attrs.drop_last(), key, max)
    }
}

/// Some attribute named `key` has exactly the value `value`.
pub open spec fn attr_has(attrs: Seq<XmlAttrV>, key: Seq<char>, value: Seq<char>) -> bool {
    exists|i: int| 0 <= i < attrs.len() && local_name((#[trigger] attrs[i]).key) == key && attrs[i].value == value
}

pub fn attr_value_exec(attrs: &Vec<XmlAttr>, key: &str) -> (r: Option<String>)
    ensures
        opt_view(r) == attr_value(attrs.deep_view(), key@),
{
    let mut i = attrs.len();
    assert(attrs.deep_view().take(i as int) =~= attrs.deep_view());
    while i > 0
        invariant
            i <= attrs.len(),
            attr_value(attrs.deep_view(), key@) == attr_value(attrs.deep_view().take(i as int), key@),
        decreases i,
    {
        let ghost t = attrs.deep_view().take(i as int);
        assert(t.drop_last() =~= attrs.deep_view().take(i as int - 1));
        assert(t.last() == attrs[i as int - 1].deep_view());
        let ln = local_name_of(attrs[i - 1].key.as_str());
        if is_str(&ln, key) {
            return Some(attrs[i - 1].value.clone());
        }
        i -= 1;
    }
    None
}

pub fn attr_first_exec(attrs: &Vec<XmlAttr>, key: &str) -> (r: Option<String>)
    ensures
        opt_view(r) == attr_first(attrs.deep_view(), key@),
{
    let mut i: usize = 0;
    assert(attrs.deep_view().skip(0) =~= attrs.deep_view());
    while i < attrs.len()
        invariant
            i <= attrs.len(),
            attr_first(attrs.deep_view(), key@) == attr_first(attrs.deep_view().skip(i as int), key@),
        decreases attrs.len() - i,
    {
        let ghost t = attrs.deep_view().skip(i as int);
        assert(t.drop_first() =~= attrs.deep_view().skip(i as int + 1));
        assert(t[0] == attrs[i as int].deep_view());
        let ln = local_name_of(attrs[i].key.as_str());
        if is_str(&ln, key) {
            return Some(attrs[i].value.clone());
        }
        i += 1;
    }
    None
}

pub fn attr_uint_exec(attrs: &Vec<XmlAttr>, key: &str, max: u64) -> (r: Option<u64>)
    requires
        max >= 9,
    ensures
        match r {
            Some(n) => attr_uint(attrs.deep_view(), key@, max as nat) == Some(n as nat),
            None => attr_uint(attrs.deep_view(), key@, max as nat) is None,
        },
{
    let mut i = attrs.len();
    assert(attrs.deep_view().take(i as int) =~= attrs.deep_view());
    while i > 0
        invariant
            i <= attrs.len(),
            max >= 9,
            attr_uint(attrs.deep_view(), key@, max as nat) == attr_uint(attrs.deep_view().take(i as int), key@, max as nat),
        decreases i,
    {
        let ghost t = attrs.deep_view().take(i as int);
        assert(t.drop_last() =~= attrs.deep_view().take(i as int - 1));
        assert(t.last() == attrs[i as int - 1].deep_view());
        let ln = local_name_of(attrs[i - 1].key.as_str());
        if is_str(&ln, key) {
            let v = chars_of(attrs[i - 1].value.as_str());
            match parse_uint(&v, max) {
                Some(n) => return Some(n),
                None => {},
            }
        }
        i -= 1;
    }
    None
}

pub fn attr_has_exec(attrs: &Vec<XmlAttr>, key: &str, value: &str) -> (b: bool)
    ensures
        b == attr_has(attrs.deep_view(), key@, value@),
{
    let mut i: usize = 0;
    while i < attrs.len()
        invariant
            i <= attrs.len(),
            forall|j: int| 0 <= j < i ==> !(local_name((#[trigger] attrs.deep_view()[j]).key) == key@
                && attrs.deep_view()[j].value == value@),
        decreases attrs.len() - i,
    {
        assert(attrs.deep_view()[i as int] == attrs[i as int].deep_view());
        let ln = local_name_of(attrs[i].key.as_str());
        let v = chars_of(attrs[i].value.as_str());
        if is_str(&ln, key) && is_str(&v, value) {
            return true;
        }
        i += 1;
    }
    false
}

/// A toggle property such as `<w:b w:val="0"/>`: true unless its first `val`
/// attribute is `0`, `false` or `off` (in any case); true without one.
pub open spec fn truthy(attrs: Seq<XmlAttrV>) -> bool {
    match attr_first(attrs, "val"@) {
        Some(v) => {
            let l = unicode_lowercase(v);
            !(l == "0"@ || l == "false"@ || l == "off"@)
        },
        None => true,
    }
}

/// Helper to parse toggle properties like `<w:b w:val="0"/>`.
pub fn is_truthy(attrs: &Vec<XmlAttr>) -> (b: bool)
    ensures
        b == truthy(attrs.deep_view()),
{
    match attr_first_exec(attrs, "val") {
        Some(v) => {
            let l = lowercase_chars(&chars_of(v.as_str()));
            !(is_str(&l, "0") || is_str(&l, "false") || is_str(&l, "off"))
        },
        None => true,
    }
}

// ── Styles ───────────────────────────────────────────────────────────────────

/// The heading level (1–4) a resolved Word style name maps to.
pub open spec fn style_heading_level(name: Seq<char>) -> Option<u8> {
    let l = unicode_lowercase(name);
    if contains(l, "heading 1"@) || contains(l, "heading1"@) || l == "h1"@ || l == "title"@ {
        Some(1u8)
    } else if contains(l, "heading 2"@) || contains(l, "heading2"@) || l == "h2"@ || l == "subtitle"@ {
        Some(2u8)
    } else if contains(l, "heading 3"@) || contains(l, "heading3"@) || l == "h3"@ {
        Some(3u8)
    } else if contains(l, "heading 4"@) || contains(l, "heading4"@) || l == "h4"@ {
        Some(4u8)
    } else {
        None
    }
}

/// Map a resolved Word style name to a heading level (1–4), or `None`.
pub fn heading_level_for_style(name: &str) -> (r: Option<u8>)
    ensures
        r == style_heading_level(name@),
{
    let l = lowercase_chars(&chars_of(name));
    if contains_str(&l, "heading 1") || contains_str(&l, "heading1") || is_str(&l, "h1") || is_str(&l, "title") {
        Some(1)
    } else if contains_str(&l, "heading 2") || contains_str(&l, "heading2") || is_str(&l, "h2") || is_str(&l, "subtitle") {
        Some(2)
    } else if contains_str(&l, "heading 3") || contains_str(&l, "heading3") || is_str(&l, "h3") {
        Some(3)
    } else if contains_str(&l, "heading 4") || contains_str(&l, "heading4") || is_str(&l, "h4") {
        Some(4)
    } else {
        None
    }
}

/// The value stored last under key `k` in an association list.
pub open spec fn lookup(entries: Seq<(Seq<char>, Seq<char>)>, k: Seq<char>) -> Option<Seq<char>>
    decreases entries.len(),
{
    if entries.len() == 0 {
        None
    } else if entries.last().0 == k {
        Some(entries.last().1)
    } else {
        lookup(entries.drop_last(), k)
    }
}

/// An association list read through `lookup` behaves as a map that later
/// inserts overwrite (`HashMap::insert`): adding an entry makes its key give
/// its value and leaves every other key as it was.
pub proof fn lemma_lookup_push(entries: Seq<(Seq<char>, Seq<char>)>, k: Seq<char>, v: Seq<char>, j: Seq<char>)
    ensures
        lookup(entries.push((k, v)), j) == if j == k {
            Some(v)
        } else {
            lookup(entries, j)
        },
{
    assert(entries.push((k, v)).drop_last() =~= entries);
}

/// The value stored last under key `k` (like a map that later inserts overwrite).
pub fn lookup_exec(entries: &Vec<(String, String)>, k: &str) -> (r: Option<String>)
    ensures
        opt_view(r) == lookup(entries.deep_view(), k@),
{
    let kc = chars_of(k);
    let mut i = entries.len();
    assert(entries.deep_view().take(i as int) =~= entries.deep_view());
    while i > 0
        invariant
            i <= entries.len(),
            kc@ == k@,
            lookup(entries.deep_view(), k@) == lookup(entries.deep_view().take(i as int), k@),
        decreases i,
    {
        let ghost t = entries.deep_view().take(i as int);
        assert(t.drop_last() =~= entries.deep_view().take(i as int - 1));
        assert(t.last() == entries[i as int - 1].deep_view());
        let key = chars_of(entries[i - 1].0.as_str());
        if equal_chars(&key, &kc) {
            return Some(entries[i - 1].1.clone());
        }
        i -= 1;
    }
    None
}

// ── Numbering ────────────────────────────────────────────────────────────────

/// What `word/numbering.xml` says about lists: which abstract definition each
/// list instance (`numId`) uses, and whether each abstract definition numbers
/// its first level.
pub struct Numbering {
    /// `numId` to `abstractNumId`; a later definition overrides.
    pub num_to_abstract: HashMap<u32, u32>,
    /// `abstractNumId` to whether it numbers its first level; the first
    /// format given counts.
    pub abstract_ordered: HashMap<u32, bool>,
}

pub struct NumberingV {
    pub num_to_abstract: Map<u32, u32>,
    pub abstract_ordered: Map<u32, bool>,
}

impl View for Numbering {
    type V = NumberingV;

    open spec fn view(&self) -> NumberingV {
        NumberingV { num_to_abstract: self.num_to_abstract@, abstract_ordered: self.abstract_ordered@ }
    }
}

/// Numbering with no lists.
pub open spec fn empty_numbering() -> NumberingV {
    NumberingV { num_to_abstract: Map::empty(), abstract_ordered: Map::empty() }
}

/// Whether list instance `id` is numbered: its abstract definition numbers
/// level 0; false for an unknown instance or definition.
pub open spec fn list_is_ordered(n: NumberingV, id: u32) -> bool {
    n.num_to_abstract.contains_key(id) && n.abstract_ordered.contains_key(n.num_to_abstract[id])
        && n.abstract_ordered[n.num_to_abstract[id]]
}

impl Numbering {
    /// A numbering part with no lists.
    pub fn empty() -> (r: Numbering)
        ensures
            r@ == empty_numbering(),
    {
        Numbering { num_to_abstract: HashMap::new(), abstract_ordered: HashMap::new() }
    }

    /// Whether list instance `id` is numbered.
    pub fn is_ordered(&self, id: u32) -> (b: bool)
        ensures
            b == list_is_ordered(self@, id),
    {
        match self.num_to_abstract.get(&id) {
            None => false,
            Some(a) => match self.abstract_ordered.get(a) {
                Some(b) => *b,
                None => false,
            },
        }
    }
}

// ── Media targets ────────────────────────────────────────────────────────────

pub open spec fn slash_char(c: char) -> char {
    if c == '\\' { '/' } else { c }
}

/// `s` with every leading copy of `p` removed (`str::trim_start_matches`).
pub open spec fn strip_repeated(s: Seq<char>, p: Seq<char>) -> Seq<char>
    decreases s.len(),
{
    if p.len() > 0 && starts_with(s, p) {
        strip_repeated(s.skip(p.len() as int), p)
    } else {
        s
    }
}

/// An image relationship target made relative to the output directory:
/// backslashes become slashes, leading slashes, a `word/` prefix and leading
/// `../` are removed, and `media/` is put in front unless already there.
pub open spec fn media_target(target: Seq<char>) -> Seq<char> {
    let t1 = target.map_values(|c: char| slash_char(c));
    let t2 = skip_lead(t1, CharClass::Exactly('/'));
    let t3 = if starts_with(t2, "word/"@) { t2.skip("word/"@.len() as int) } else { t2 };
    let t4 = strip_repeated(t3, "../"@);
    if starts_with(t4, "media/"@) {
        t4
    } else {
        "media/"@ + t4
    }
}

/// Has no backslash.
pub open spec fn no_backslash(s: Seq<char>) -> bool {
    forall|i: int| 0 <= i < s.len() ==> s[i] != '\\'
}

proof fn lemma_strip_repeated_suffix(s: Seq<char>, p: Seq<char>)
    ensures
        no_backslash(s) ==> no_backslash(strip_repeated(s, p)),
        s.len() > 0 && p.len() > 0 && s[0] != p[0] ==> strip_repeated(s, p) == s,
    decreases s.len(),
{
    if p.len() > 0 && starts_with(s, p) {
        assert(s.take(p.len() as int)[0] == s[0]);
        let r = s.skip(p.len() as int);
        assert forall|i: int| 0 <= i < r.len() implies r[i] == s[i + p.len()] by {}
        lemma_strip_repeated_suffix(r, p);
    }
}

/// Normalizing a target is idempotent: a normalized target is left as it is.
pub proof fn lemma_media_target_idempotent(target: Seq<char>)
    ensures
        media_target(media_target(target)) == media_target(target),
{
    reveal_strlit("media/");
    reveal_strlit("word/");
    reveal_strlit("../");
    let t1 = target.map_values(|c: char| slash_char(c));
    assert(no_backslash(t1));
    let n = lead_count(t1, CharClass::Exactly('/'));
    crate::text::lemma_lead_count_bound(t1, CharClass::Exactly('/'));
    let t2 = skip_lead(t1, CharClass::Exactly('/'));
    assert forall|i: int| 0 <= i < t2.len() implies t2[i] != '\\' by {
        assert(t2[i] == t1[i + n]);
    }
    let t3 = if starts_with(t2, "word/"@) { t2.skip("word/"@.len() as int) } else { t2 };
    assert forall|i: int| 0 <= i < t3.len() implies t3[i] != '\\' by {
        if starts_with(t2, "word/"@) {
            assert(t3[i] == t2[i + 5]);
        }
    }
    lemma_strip_repeated_suffix(t3, "../"@);
    let t4 = strip_repeated(t3, "../"@);
    let u = media_target(target);
    assert(no_backslash(u)) by {
        if !starts_with(t4, "media/"@) {
            assert forall|i: int| 0 <= i < u.len() implies u[i] != '\\' by {
                if i >= 6 {
                    assert(u[i] == t4[i - 6]);
                }
            }
        }
    }
    assert(starts_with(u, "media/"@)) by {
        if !starts_with(t4, "media/"@) {
            assert(u.take(6) =~= "media/"@);
        }
    }
    assert(u[0] == 'm') by {
        assert(u.take(6)[0] == u[0]);
    }
    // Applying it again changes nothing.
    let v1 = u.map_values(|c: char| slash_char(c));
    assert(v1 =~= u);
    assert(lead_count(u, CharClass::Exactly('/')) == 0);
    assert(skip_lead(u, CharClass::Exactly('/')) =~= u);
    assert(!starts_with(u, "word/"@)) by {
        assert(u.take(5)[0] == 'm');
    }
    lemma_strip_repeated_suffix(u, "../"@);
}

/// Normalize an image relationship target to a `media/...` path.
pub fn normalize_media_target(target: &str) -> (r: String)
    ensures
        r@ == media_target(target@),
{
    let v = chars_of(target);
    let mut t1: Vec<char> = Vec::new();
    let mut i: usize = 0;
    while i < v.len()
        invariant
            i <= v.len(),
            t1@ == v@.take(i as int).map_values(|c: char| slash_char(c)),
        decreases v.len() - i,
    {
        let c = v[i];
        t1.push(if c == '\\' { '/' } else { c });
        i += 1;
        assert(t1@ =~= v@.take(i as int).map_values(|c: char| slash_char(c)));
    }
    assert(v@.take(i as int) =~= v@);
    let t2 = skip_leading(&t1, &CharClass::Exactly('/'));
    let word = chars_of("word/");
    let t3 = if starts_with_str(&t2, "word/") {
        let r = slice_of(&t2, word.len(), t2.len());
        assert(r@ =~= t2@.skip(word@.len() as int));
        r
    } else {
        t2
    };
    let up = chars_of("../");
    proof { reveal_strlit("../"); }
    let mut pos: usize = 0;
    assert(t3@.skip(0) =~= t3@);
    while pos <= t3.len() && up.len() <= t3.len() - pos && crate::text::occurs_at_exec(&t3, &up, pos)
        invariant
            pos <= t3.len(),
            up@ == "../"@,
            up@.len() == 3,
            strip_repeated(t3@, up@) == strip_repeated(t3@.skip(pos as int), up@),
        decreases t3.len() - pos,
    {
        assert(t3@.skip(pos as int).take(3) =~= t3@.subrange(pos as int, pos + 3));
        assert(t3@.skip(pos as int).skip(3) =~= t3@.skip(pos + 3));
        pos += 3;
    }
    proof {
        if pos <= t3.len() && !(up.len() <= t3.len() - pos) {
            assert(!starts_with(t3@.skip(pos as int), up@));
        }
        if pos <= t3.len() && up.len() <= t3.len() - pos {
            assert(t3@.skip(pos as int).take(3) =~= t3@.subrange(pos as int, pos + 3));
        }
    }
    let t4 = slice_of(&t3, pos, t3.len());
    assert(t4@ =~= t3@.skip(pos as int));
    let mut out = String::new();
    if !starts_with_str(&t4, "media/") {
        out.append("media/");
    }
    let ghost base = out@;
    let mut j: usize = 0;
    while j < t4.len()
        invariant
            j <= t4.len(),
            out@ == base + t4@.take(j as int),
        decreases t4.len() - j,
    {
        push_char(&mut out, t4[j]);
        j += 1;
        assert(out@ =~= base + t4@.take(j as int));
    }
    assert(t4@.take(j as int) =~= t4@);
    out
}

// ── word/styles.xml ──────────────────────────────────────────────────────────

/// What the style scan remembers: the id and name of the current style and
/// the `(id, name)` pairs recorded so far.
pub struct StyleScan {
    pub id: Seq<char>,
    pub name: Seq<char>,
    pub map: Seq<(Seq<char>, Seq<char>)>,
}

/// A start or empty tag of the styles part: `<w:style w:styleId=..>` starts a
/// style, `<w:name w:val=..>` names it and records the pair when both are
/// non-empty.
pub open spec fn style_tag(s: StyleScan, l: Seq<char>, attrs: Seq<XmlAttrV>) -> StyleScan {
    if l == "style"@ {
        StyleScan {
            id: match attr_value(attrs, "styleId"@) {
                Some(v) => v,
                None => Seq::empty(),
            },
            name: Seq::empty(),
            map: s.map,
        }
    } else if l == "name"@ {
        let n = match attr_value(attrs, "val"@) {
            Some(v) => v,
            None => s.name,
        };
        StyleScan {
            id: s.id,
            name: n,
            map: if s.id.len() > 0 && n.len() > 0 { s.map.push((s.id, n)) } else { s.map },
        }
    } else {
        s
    }
}

/// The `(style id, style name)` pairs of the styles part's events, in order,
/// up to its first end-of-file or error event.
pub open spec fn styles_from(s: StyleScan, evs: Seq<XmlEventV>) -> Seq<(Seq<char>, Seq<char>)>
    decreases evs.len(),
{
    if evs.len() == 0 || is_terminal(evs[0]) {
        s.map
    } else {
        let next = match evs[0] {
            XmlEventV::Start { name, attrs } => style_tag(s, local_name(name), attrs),
            XmlEventV::Empty { name, attrs } => style_tag(s, local_name(name), attrs),
            _ => s,
        };
        styles_from(next, evs.drop_first())
    }
}

pub open spec fn no_styles() -> StyleScan {
    StyleScan { id: Seq::empty(), name: Seq::empty(), map: Seq::empty() }
}

/// The style names of the styles part's events (a later id overrides).
pub fn style_map(events: &Vec<XmlEvent>) -> (r: Vec<(String, String)>)
    ensures
        r.deep_view() == styles_from(no_styles(), events.deep_view()),
{
    let ghost evs = events.deep_view();
    let mut id = String::new();
    let mut name = String::new();
    let mut map: Vec<(String, String)> = Vec::new();
    let mut i: usize = 0;
    assert(evs.skip(0) =~= evs);
    assert(map.deep_view() =~= Seq::<(Seq<char>, Seq<char>)>::empty());
    while i < events.len()
        invariant
            i <= events.len(),
            evs == events.deep_view(),
            styles_from(no_styles(), evs) == styles_from(
                StyleScan { id: id@, name: name@, map: map.deep_view() },
                evs.skip(i as int),
            ),
        decreases events.len() - i,
    {
        let ghost rest = evs.skip(i as int);
        assert(rest[0] == events[i as int].deep_view());
        assert(rest.drop_first() =~= evs.skip(i as int + 1));
        let (tag, attrs) = match &events[i] {
            XmlEvent::Start { name, attrs } => (local_name_of(name.as_str()), attrs),
            XmlEvent::Empty { name, attrs } => (local_name_of(name.as_str()), attrs),
            XmlEvent::Eof => { return map; },
            XmlEvent::Error { .. } => { return map; },
            _ => {
                i += 1;
                continue;
            },
        };
        if is_str(&tag, "style") {
            id = match attr_value_exec(attrs, "styleId") {
                Some(v) => v,
                None => String::new(),
            };
            name = String::new();
        } else if is_str(&tag, "name") {
            match attr_value_exec(attrs, "val") {
                Some(v) => { name = v; },
                None => {},
            }
            if !id.as_str().is_empty() && !name.as_str().is_empty() {
                let e = (id.clone(), name.clone());
                let ghost before = map;
                map.push(e);
                proof { lemma_push_deep_view(before, map, e); }
            }
        }
        i += 1;
    }
    map
}

// ── word/_rels/document.xml.rels ─────────────────────────────────────────────

/// Some `Type` attribute ends with `suffix`.
pub open spec fn type_ends_with(attrs: Seq<XmlAttrV>, suffix: Seq<char>) -> bool {
    exists|i: int| 0 <= i < attrs.len() && local_name((#[trigger] attrs[i]).key) == "Type"@
        && ends_with(attrs[i].value, suffix)
}

/// An attribute value with its character and entity references replaced;
/// as written where a reference is malformed.
pub open spec fn attr_text(raw: Seq<char>) -> Seq<char> {
    match xml_unescaped(raw) {
        Some(u) => u,
        None => raw,
    }
}

/// What a `<Relationship>` records: the target the XML denotes (references
/// replaced), for an image made relative to the output directory, for a
/// hyperlink as it is; other relationships, and those without `Id` or
/// `Target`, record nothing.
pub open spec fn relationship(attrs: Seq<XmlAttrV>) -> Option<(Seq<char>, Seq<char>)> {
    match (attr_value(attrs, "Id"@), attr_value(attrs, "Target"@)) {
        (Some(id), Some(raw)) => {
            let target = attr_text(raw);
            if type_ends_with(attrs, "/image"@) {
                Some((id, media_target(target)))
            } else if type_ends_with(attrs, "/hyperlink"@) {
                Some((id, target))
            } else {
                None
            }
        },
        _ => None,
    }
}

/// The `(id, target)` pairs of the relationships part's events, in order, up
/// to its first end-of-file or error event.
pub open spec fn rels_from(evs: Seq<XmlEventV>) -> Seq<(Seq<char>, Seq<char>)>
    decreases evs.len(),
{
    if evs.len() == 0 || is_terminal(evs[0]) {
        Seq::empty()
    } else {
        let here = match evs[0] {
            XmlEventV::Start { name, attrs } => if local_name(name) == "Relationship"@ { relationship(attrs) } else { None },
            XmlEventV::Empty { name, attrs } => if local_name(name) == "Relationship"@ { relationship(attrs) } else { None },
            _ => None,
        };
        match here {
            Some(e) => seq![e] + rels_from(evs.drop_first()),
            None => rels_from(evs.drop_first()),
        }
    }
}

fn type_ends_with_exec(attrs: &Vec<XmlAttr>, suffix: &str) -> (b: bool)
    ensures
        b == type_ends_with(attrs.deep_view(), suffix@),
{
    let sfx = chars_of(suffix);
    let mut i: usize = 0;
    while i < attrs.len()
        invariant
            i <= attrs.len(),
            sfx@ == suffix@,
            forall|j: int| 0 <= j < i ==> !(local_name((#[trigger] attrs.deep_view()[j]).key) == "Type"@
                && ends_with(attrs.deep_view()[j].value, suffix@)),
        decreases attrs.len() - i,
    {
        assert(attrs.deep_view()[i as int] == attrs[i as int].deep_view());
        let ln = local_name_of(attrs[i].key.as_str());
        let v = chars_of(attrs[i].value.as_str());
        if is_str(&ln, "Type") && crate::text::ends_with_chars(&v, &sfx) {
            return true;
        }
        i += 1;
    }
    false
}

fn relationship_exec(attrs: &Vec<XmlAttr>) -> (r: Option<(String, String)>)
    ensures
        match r {
            Some(e) => relationship(attrs.deep_view()) == Some(e.deep_view()),
            None => relationship(attrs.deep_view()) is None,
        },
{
    match (attr_value_exec(attrs, "Id"), attr_value_exec(attrs, "Target")) {
        (Some(id), Some(raw)) => {
            let target = match unescape_text(raw.as_str()) {
                Some(u) => u,
                None => raw,
            };
            if type_ends_with_exec(attrs, "/image") {
                Some((id, normalize_media_target(target.as_str())))
            } else if type_ends_with_exec(attrs, "/hyperlink") {
                Some((id, target))
            } else {
                None
            }
        },
        _ => None,
    }
}

/// The relationship targets of the relationships part's events.
pub fn relationship_map(events: &Vec<XmlEvent>) -> (r: Vec<(String, String)>)
    ensures
        r.deep_view() == rels_from(events.deep_view()),
{
    let ghost evs = events.deep_view();
    let mut map: Vec<(String, String)> = Vec::new();
    let mut i: usize = 0;
    assert(evs.skip(0) =~= evs);
    while i < events.len()
        invariant
            i <= events.len(),
            evs == events.deep_view(),
            rels_from(evs) == map.deep_view() + rels_from(evs.skip(i as int)),
        decreases events.len() - i,
    {
        let ghost rest = evs.skip(i as int);
        assert(rest[0] == events[i as int].deep_view());
        assert(rest.drop_first() =~= evs.skip(i as int + 1));
        let here = match &events[i] {
            XmlEvent::Start { name, attrs } => {
                let l = local_name_of(name.as_str());
                if is_str(&l, "Relationship") { relationship_exec(attrs) } else { None }
            },
            XmlEvent::Empty { name, attrs } => {
                let l = local_name_of(name.as_str());
                if is_str(&l, "Relationship") { relationship_exec(attrs) } else { None }
            },
            XmlEvent::Eof => {
                assert(map.deep_view() + Seq::<(Seq<char>, Seq<char>)>::empty() =~= map.deep_view());
                return map;
            },
            XmlEvent::Error { .. } => {
                assert(map.deep_view() + Seq::<(Seq<char>, Seq<char>)>::empty() =~= map.deep_view());
                return map;
            },
            _ => None,
        };
        match here {
            Some(e) => {
                let ghost before = map;
                map.push(e);
                proof { lemma_push_deep_view(before, map, e); }
                assert(before.deep_view() + (seq![e.deep_view()] + rels_from(evs.skip(i as int + 1)))
                    =~= map.deep_view() + rels_from(evs.skip(i as int + 1)));
            },
            None => {},
        }
        i += 1;
    }
    assert(evs.skip(i as int) =~= Seq::<XmlEventV>::empty());
    assert(map.deep_view() + Seq::<(Seq<char>, Seq<char>)>::empty() =~= map.deep_view());
    map
}

// ── word/numbering.xml ───────────────────────────────────────────────────────

/// A `w:numFmt` value that numbers items: one of `decimal`, `lowerLetter`,
/// `upperLetter`, `lowerRoman`, `upperRoman`, `ordinal`, `cardinalText`,
/// `ordinalText`, `decimalZero`, compared case-insensitively (both sides
/// lower-cased).
pub open spec fn is_ordered_format(v: Seq<char>) -> bool {
    let l = unicode_lowercase(v);
    l == "decimal"@ || l == "lowerletter"@ || l == "upperletter"@ || l == "lowerroman"@ || l == "upperroman"@
        || l == "ordinal"@ || l == "cardinaltext"@ || l == "ordinaltext"@ || l == "decimalzero"@
}

/// `(abs, ordered)` for each `val` attribute, in order.
pub open spec fn format_entries(abs: u32, attrs: Seq<XmlAttrV>) -> Seq<(u32, bool)>
    decreases attrs.len(),
{
    if attrs.len() == 0 {
        Seq::empty()
    } else {
        let rest = format_entries(abs, attrs.drop_last());
        if local_name(attrs.last().key) == "val"@ {
            rest.push((abs, is_ordered_format(attrs.last().value)))
        } else {
            rest
        }
    }
}

/// `(num, abstract id)` for each `val` attribute that parses as a `u32`.
pub open spec fn abstract_entries(num: u32, attrs: Seq<XmlAttrV>) -> Seq<(u32, u32)>
    decreases attrs.len(),
{
    if attrs.len() == 0 {
        Seq::empty()
    } else {
        let rest = abstract_entries(num, attrs.drop_last());
        match parsed_uint(attrs.last().value, u32::MAX as nat) {
            Some(a) => if local_name(attrs.last().key) == "val"@ { rest.push((num, a as u32)) } else { rest },
            None => rest,
        }
    }
}

/// What the numbering scan remembers.
pub struct NumScan {
    pub abstract_id: Option<u32>,
    pub num_id: Option<u32>,
    pub in_lvl0: bool,
    pub num_to_abstract: Map<u32, u32>,
    pub abstract_ordered: Map<u32, bool>,
}

/// `m` with each entry inserted in turn, a later one overriding
/// (`HashMap::insert`).
pub open spec fn inserted_all(m: Map<u32, u32>, es: Seq<(u32, u32)>) -> Map<u32, u32>
    decreases es.len(),
{
    if es.len() == 0 {
        m
    } else {
        inserted_all(m, es.drop_last()).insert(es.last().0, es.last().1)
    }
}

/// `m` with each entry added in turn unless its key is there already
/// (`entry(..).or_insert(..)`).
pub open spec fn first_kept(m: Map<u32, bool>, es: Seq<(u32, bool)>) -> Map<u32, bool>
    decreases es.len(),
{
    if es.len() == 0 {
        m
    } else {
        let m1 = first_kept(m, es.drop_last());
        if m1.contains_key(es.last().0) {
            m1
        } else {
            m1.insert(es.last().0, es.last().1)
        }
    }
}

pub open spec fn opt_u32(n: Option<nat>) -> Option<u32> {
    match n {
        Some(v) => Some(v as u32),
        None => None,
    }
}

/// A start or empty tag of the numbering part.
pub open spec fn num_tag(s: NumScan, l: Seq<char>, attrs: Seq<XmlAttrV>) -> NumScan {
    if l == "abstractNum"@ {
        NumScan { abstract_id: opt_u32(attr_uint(attrs, "abstractNumId"@, u32::MAX as nat)), ..s }
    } else if l == "lvl"@ {
        NumScan { in_lvl0: attr_has(attrs, "ilvl"@, "0"@), ..s }
    } else if l == "numFmt"@ && s.in_lvl0 {
        match s.abstract_id {
            Some(a) => NumScan { abstract_ordered: first_kept(s.abstract_ordered, format_entries(a, attrs)), ..s },
            None => s,
        }
    } else if l == "num"@ {
        NumScan { num_id: opt_u32(attr_uint(attrs, "numId"@, u32::MAX as nat)), ..s }
    } else if l == "abstractNumId"@ {
        match s.num_id {
            Some(n) => NumScan { num_to_abstract: inserted_all(s.num_to_abstract, abstract_entries(n, attrs)), ..s },
            None => s,
        }
    } else {
        s
    }
}

pub open spec fn num_event(s: NumScan, ev: XmlEventV) -> NumScan {
    match ev {
        XmlEventV::Start { name, attrs } => num_tag(s, local_name(name), attrs),
        XmlEventV::Empty { name, attrs } => num_tag(s, local_name(name), attrs),
        XmlEventV::End { name } => if local_name(name) == "lvl"@ { NumScan { in_lvl0: false, ..s } } else { s },
        _ => s,
    }
}

/// The numbering definitions of the numbering part's events, up to its first
/// end-of-file or error event.
pub open spec fn numbering_from(s: NumScan, evs: Seq<XmlEventV>) -> NumberingV
    decreases evs.len(),
{
    if evs.len() == 0 || is_terminal(evs[0]) {
        NumberingV { num_to_abstract: s.num_to_abstract, abstract_ordered: s.abstract_ordered }
    } else {
        numbering_from(num_event(s, evs[0]), evs.drop_first())
    }
}

pub open spec fn no_numbering() -> NumScan {
    NumScan {
        abstract_id: None,
        num_id: None,
        in_lvl0: false,
        num_to_abstract: Map::empty(),
        abstract_ordered: Map::empty(),
    }
}

fn ordered_format_exec(v: &str) -> (b: bool)
    ensures
        b == is_ordered_format(v@),
{
    let l = lowercase_chars(&chars_of(v));
    is_str(&l, "decimal") || is_str(&l, "lowerletter") || is_str(&l, "upperletter") || is_str(&l, "lowerroman")
        || is_str(&l, "upperroman") || is_str(&l, "ordinal") || is_str(&l, "cardinaltext")
        || is_str(&l, "ordinaltext") || is_str(&l, "decimalzero")
}

fn add_format_entries(m: &mut HashMap<u32, bool>, abs: u32, attrs: &Vec<XmlAttr>)
    ensures
        final(m)@ == first_kept(old(m)@, format_entries(abs, attrs.deep_view())),
{
    let ghost base = m@;
    let mut i: usize = 0;
    assert(attrs.deep_view().take(0) =~= Seq::<XmlAttrV>::empty());
    while i < attrs.len()
        invariant
            i <= attrs.len(),
            m@ == first_kept(base, format_entries(abs, attrs.deep_view().take(i as int))),
        decreases attrs.len() - i,
    {
        let ghost t = attrs.deep_view().take(i as int + 1);
        assert(t.drop_last() =~= attrs.deep_view().take(i as int));
        assert(t.last() == attrs[i as int].deep_view());
        let ln = local_name_of(attrs[i].key.as_str());
        if is_str(&ln, "val") {
            let ordered = ordered_format_exec(attrs[i].value.as_str());
            if !m.contains_key(&abs) {
                m.insert(abs, ordered);
            }
            assert(format_entries(abs, t).drop_last() == format_entries(abs, attrs.deep_view().take(i as int)));
        } else {
            assert(format_entries(abs, t) == format_entries(abs, attrs.deep_view().take(i as int)));
        }
        i += 1;
    }
    assert(attrs.deep_view().take(i as int) =~= attrs.deep_view());
}

fn add_abstract_entries(m: &mut HashMap<u32, u32>, num: u32, attrs: &Vec<XmlAttr>)
    ensures
        final(m)@ == inserted_all(old(m)@, abstract_entries(num, attrs.deep_view())),
{
    let ghost base = m@;
    let mut i: usize = 0;
    assert(attrs.deep_view().take(0) =~= Seq::<XmlAttrV>::empty());
    while i < attrs.len()
        invariant
            i <= attrs.len(),
            m@ == inserted_all(base, abstract_entries(num, attrs.deep_view().take(i as int))),
        decreases attrs.len() - i,
    {
        let ghost t = attrs.deep_view().take(i as int + 1);
        assert(t.drop_last() =~= attrs.deep_view().take(i as int));
        assert(t.last() == attrs[i as int].deep_view());
        let ln = local_name_of(attrs[i].key.as_str());
        let v = chars_of(attrs[i].value.as_str());
        let ghost prev = attrs.deep_view().take(i as int);
        match parse_uint(&v, 4294967295) {
            Some(a) => {
                if is_str(&ln, "val") {
                    m.insert(num, a as u32);
                    assert(abstract_entries(num, t).drop_last() == abstract_entries(num, prev));
                } else {
                    assert(abstract_entries(num, t) == abstract_entries(num, prev));
                }
            },
            None => {
                assert(abstract_entries(num, t) == abstract_entries(num, prev));
            },
        }
        i += 1;
    }
    assert(attrs.deep_view().take(i as int) =~= attrs.deep_view());
}

fn attr_u32(attrs: &Vec<XmlAttr>, key: &str) -> (r: Option<u32>)
    ensures
        r == opt_u32(attr_uint(attrs.deep_view(), key@, u32::MAX as nat)),
{
    proof { crate::document_xml::lemma_attr_uint_bound(attrs.deep_view(), key@, u32::MAX as nat); }
    match attr_uint_exec(attrs, key, 4294967295) {
        Some(n) => Some(n as u32),
        None => None,
    }
}

/// The numbering definitions of the numbering part's events.
pub fn numbering_of(events: &Vec<XmlEvent>) -> (r: Numbering)
    ensures
        r@ == numbering_from(no_numbering(), events.deep_view()),
{
    let ghost evs = events.deep_view();
    let mut abstract_id: Option<u32> = None;
    let mut num_id: Option<u32> = None;
    let mut in_lvl0 = false;
    let mut num_to_abstract: HashMap<u32, u32> = HashMap::new();
    let mut abstract_ordered: HashMap<u32, bool> = HashMap::new();
    let mut i: usize = 0;
    assert(evs.skip(0) =~= evs);
    while i < events.len()
        invariant
            i <= events.len(),
            evs == events.deep_view(),
            numbering_from(no_numbering(), evs) == numbering_from(
                NumScan {
                    abstract_id,
                    num_id,
                    in_lvl0,
                    num_to_abstract: num_to_abstract@,
                    abstract_ordered: abstract_ordered@,
                },
                evs.skip(i as int),
            ),
        decreases events.len() - i,
    {
        let ghost rest = evs.skip(i as int);
        assert(rest[0] == events[i as int].deep_view());
        assert(rest.drop_first() =~= evs.skip(i as int + 1));
        let (tag, attrs) = match &events[i] {
            XmlEvent::Start { name, attrs } => (local_name_of(name.as_str()), attrs),
            XmlEvent::Empty { name, attrs } => (local_name_of(name.as_str()), attrs),
            XmlEvent::End { name } => {
                let l = local_name_of(name.as_str());
                if is_str(&l, "lvl") {
                    in_lvl0 = false;
                }
                i += 1;
                continue;
            },
            XmlEvent::Eof => { return Numbering { num_to_abstract, abstract_ordered }; },
            XmlEvent::Error { .. } => { return Numbering { num_to_abstract, abstract_ordered }; },
            _ => {
                i += 1;
                continue;
            },
        };
        if is_str(&tag, "abstractNum") {
            abstract_id = attr_u32(attrs, "abstractNumId");
        } else if is_str(&tag, "lvl") {
            in_lvl0 = attr_has_exec(attrs, "ilvl", "0");
        } else if is_str(&tag, "numFmt") && in_lvl0 {
            match abstract_id {
                Some(a) => { add_format_entries(&mut abstract_ordered, a, attrs); },
                None => {},
            }
        } else if is_str(&tag, "num") {
            num_id = attr_u32(attrs, "numId");
        } else if is_str(&tag, "abstractNumId") {
            match num_id {
                Some(n) => { add_abstract_entries(&mut num_to_abstract, n, attrs); },
                None => {},
            }
        }
        i += 1;
    }
    Numbering { num_to_abstract, abstract_ordered }
}

/// The digit for a heading level.
pub open spec fn level_digit(k: u8) -> char {
    ((k as u32) + 48) as char
}

/// The lower-cased style name `l` names heading level `k`: it contains
/// "heading k" or "headingk", or is "hk"; "title" names level 1 and
/// "subtitle" level 2.
pub open spec fn names_level(l: Seq<char>, k: u8) -> bool {
    contains(l, "heading "@ + seq![level_digit(k)]) || contains(l, "heading"@ + seq![level_digit(k)])
        || l == seq!['h', level_digit(k)] || (k == 1 && l == "title"@) || (k == 2 && l == "subtitle"@)
}

/// A style maps to the first heading level from 1 to 4 that its lower-cased
/// name names, with or without the space in "heading n", and to no level
/// when it names none: Word's built-in "Heading 1" to "Heading 4" give
/// levels 1 to 4 alike.
pub proof fn lemma_style_levels(name: Seq<char>, k: u8)
    requires
        1 <= k <= 4,
        names_level(unicode_lowercase(name), k),
        forall|j: u8| 1 <= j < k ==> !names_level(unicode_lowercase(name), j),
    ensures
        style_heading_level(name) == Some(k),
{
    lemma_level_literals();
    if k >= 2 {
        assert(!names_level(unicode_lowercase(name), 1u8));
    }
    if k >= 3 {
        assert(!names_level(unicode_lowercase(name), 2u8));
    }
    if k >= 4 {
        assert(!names_level(unicode_lowercase(name), 3u8));
    }
}

/// A style whose lower-cased name names no heading level 1 to 4 is no
/// heading.
pub proof fn lemma_style_no_level(name: Seq<char>)
    requires
        forall|j: u8| 1 <= j <= 4 ==> !names_level(unicode_lowercase(name), j),
    ensures
        style_heading_level(name) is None,
{
    lemma_level_literals();
    assert(!names_level(unicode_lowercase(name), 1u8));
    assert(!names_level(unicode_lowercase(name), 2u8));
    assert(!names_level(unicode_lowercase(name), 3u8));
    assert(!names_level(unicode_lowercase(name), 4u8));
}

proof fn lemma_level_literals()
    ensures
        "heading "@ + seq![level_digit(1)] == "heading 1"@,
        "heading "@ + seq![level_digit(2)] == "heading 2"@,
        "heading "@ + seq![level_digit(3)] == "heading 3"@,
        "heading "@ + seq![level_digit(4)] == "heading 4"@,
        "heading"@ + seq![level_digit(1)] == "heading1"@,
        "heading"@ + seq![level_digit(2)] == "heading2"@,
        "heading"@ + seq![level_digit(3)] == "heading3"@,
        "heading"@ + seq![level_digit(4)] == "heading4"@,
        seq!['h', level_digit(1)] == "h1"@,
        seq!['h', level_digit(2)] == "h2"@,
        seq!['h', level_digit(3)] == "h3"@,
        seq!['h', level_digit(4)] == "h4"@,
{
    reveal_strlit("heading ");
    reveal_strlit("heading");
    reveal_strlit("heading 1");
    reveal_strlit("heading 2");
    reveal_strlit("heading 3");
    reveal_strlit("heading 4");
    reveal_strlit("heading1");
    reveal_strlit("heading2");
    reveal_strlit("heading3");
    reveal_strlit("heading4");
    reveal_strlit("h1");
    reveal_strlit("h2");
    reveal_strlit("h3");
    reveal_strlit("h4");
    assert("heading "@ + seq![level_digit(1)] =~= "heading 1"@);
    assert("heading "@ + seq![level_digit(2)] =~= "heading 2"@);
    assert("heading "@ + seq![level_digit(3)] =~= "heading 3"@);
    assert("heading "@ + seq![level_digit(4)] =~= "heading 4"@);
    assert("heading"@ + seq![level_digit(1)] =~= "heading1"@);
    assert("heading"@ + seq![level_digit(2)] =~= "heading2"@);
    assert("heading"@ + seq![level_digit(3)] =~= "heading3"@);
    assert("heading"@ + seq![level_digit(4)] =~= "heading4"@);
    assert(seq!['h', level_digit(1)] =~= "h1"@);
    assert(seq!['h', level_digit(2)] =~= "h2"@);
    assert(seq!['h', level_digit(3)] =~= "h3"@);
    assert(seq!['h', level_digit(4)] =~= "h4"@);
}

/// A numbering format numbers its items exactly when, lower-cased, it is
/// one of the numbered formats (decimal, letters, roman numerals, ordinal
/// and cardinal words, zero-padded decimal), so that names compare without
/// regard to case; bullets and no numbering are not numbered.
pub proof fn lemma_ordered_formats(v: Seq<char>)
    ensures
        unicode_lowercase(v) == "decimal"@ ==> is_ordered_format(v),
        unicode_lowercase(v) == "lowerletter"@ ==> is_ordered_format(v),
        unicode_lowercase(v) == "upperletter"@ ==> is_ordered_format(v),
        unicode_lowercase(v) == "lowerroman"@ ==> is_ordered_format(v),
        unicode_lowercase(v) == "upperroman"@ ==> is_ordered_format(v),
        unicode_lowercase(v) == "ordinal"@ ==> is_ordered_format(v),
        unicode_lowercase(v) == "cardinaltext"@ ==> is_ordered_format(v),
        unicode_lowercase(v) == "ordinaltext"@ ==> is_ordered_format(v),
        unicode_lowercase(v) == "decimalzero"@ ==> is_ordered_format(v),
        unicode_lowercase(v) == "bullet"@ ==> !is_ordered_format(v),
        unicode_lowercase(v) == "none"@ ==> !is_ordered_format(v),
{
    reveal_strlit("bullet");
    reveal_strlit("none");
    reveal_strlit("decimal");
    reveal_strlit("lowerletter");
    reveal_strlit("upperletter");
    reveal_strlit("lowerroman");
    reveal_strlit("upperroman");
    reveal_strlit("ordinal");
    reveal_strlit("cardinaltext");
    reveal_strlit("ordinaltext");
    reveal_strlit("decimalzero");
    assert("bullet"@.len() == 6 && "none"@.len() == 4);
    assert("decimal"@.len() == 7 && "ordinal"@.len() == 7);
    assert("lowerletter"@.len() == 11 && "upperletter"@.len() == 11 && "cardinaltext"@.len() == 12);
    assert("ordinaltext"@.len() == 11 && "decimalzero"@.len() == 11);
    assert("lowerroman"@.len() == 10 && "upperroman"@.len() == 10);
}

/// A toggle property is on unless its first `val` reads 0, false or off in
/// any case: without a `val` it is on.
pub proof fn lemma_truthy(attrs: Seq<XmlAttrV>, v: Seq<char>)
    ensures
        attr_first(attrs, "val"@) is None ==> truthy(attrs),
        attr_first(attrs, "val"@) == Some(v) && (unicode_lowercase(v) == "0"@ || unicode_lowercase(v) == "false"@
            || unicode_lowercase(v) == "off"@) ==> !truthy(attrs),
        attr_first(attrs, "val"@) == Some(v) && unicode_lowercase(v) != "0"@ && unicode_lowercase(v) != "false"@
            && unicode_lowercase(v) != "off"@ ==> truthy(attrs),
{
}

/// Every normalized image target lies under `media/`.
pub proof fn lemma_media_target_under_media(target: Seq<char>)
    ensures
        starts_with(media_target(target), "media/"@),
{
    reveal_strlit("media/");
    let t1 = target.map_values(|c: char| slash_char(c));
    let t2 = skip_lead(t1, CharClass::Exactly('/'));
    let t3 = if starts_with(t2, "word/"@) { t2.skip("word/"@.len() as int) } else { t2 };
    let t4 = strip_repeated(t3, "../"@);
    if !starts_with(t4, "media/"@) {
        assert(("media/"@ + t4).take(6) =~= "media/"@);
    }
}

/// A style definition names its style: `<w:style w:styleId="id">` followed
/// by `<w:name w:val="n"/>` records `n` as the name of style `id` (both
/// non-empty), whatever the prefixes of the tags.
pub proof fn lemma_style_definition(
    style_tag_name: Seq<char>,
    style_attrs: Seq<XmlAttrV>,
    name_tag_name: Seq<char>,
    name_attrs: Seq<XmlAttrV>,
    id: Seq<char>,
    n: Seq<char>,
)
    requires
        local_name(style_tag_name) == "style"@,
        attr_value(style_attrs, "styleId"@) == Some(id),
        id.len() > 0,
        local_name(name_tag_name) == "name"@,
        attr_value(name_attrs, "val"@) == Some(n),
        n.len() > 0,
    ensures
        styles_from(
            no_styles(),
            seq![
                XmlEventV::Start { name: style_tag_name, attrs: style_attrs },
                XmlEventV::Empty { name: name_tag_name, attrs: name_attrs },
                XmlEventV::Eof,
            ],
        ) == seq![(id, n)],
{
    reveal_strlit("style");
    reveal_strlit("name");
    assert("style"@.len() == 5 && "name"@.len() == 4);
    let evs = seq![
        XmlEventV::Start { name: style_tag_name, attrs: style_attrs },
        XmlEventV::Empty { name: name_tag_name, attrs: name_attrs },
        XmlEventV::Eof,
    ];
    let s1 = StyleScan { id, name: Seq::empty(), map: Seq::empty() };
    assert(style_tag(no_styles(), "style"@, style_attrs) == s1);
    let s2 = StyleScan { id, name: n, map: seq![(id, n)] };
    assert(Seq::<(Seq<char>, Seq<char>)>::empty().push((id, n)) =~= seq![(id, n)]);
    assert(style_tag(s1, "name"@, name_attrs) == s2);
    assert(evs.drop_first() =~= seq![XmlEventV::Empty { name: name_tag_name, attrs: name_attrs }, XmlEventV::Eof]);
    assert(evs.drop_first().drop_first() =~= seq![XmlEventV::Eof]);
    assert(styles_from(s2, seq![XmlEventV::Eof]) == s2.map);
    assert(!is_terminal(evs[0]) && !is_terminal(evs.drop_first()[0]));
    assert(styles_from(s1, evs.drop_first()) == styles_from(s2, evs.drop_first().drop_first()));
    assert(styles_from(no_styles(), evs) == styles_from(s1, evs.drop_first()));
}

/// What a relationship records: a hyperlink its target as the XML denotes
/// it (references replaced), an image its target made relative to the
/// output directory (under `media/`); a relationship of any other type, or
/// without an id or a target, records nothing.
pub proof fn lemma_relationship_kinds(attrs: Seq<XmlAttrV>, id: Seq<char>, raw: Seq<char>)
    ensures
        attr_value(attrs, "Id"@) == Some(id) && attr_value(attrs, "Target"@) == Some(raw) && type_ends_with(
            attrs,
            "/image"@,
        ) ==> relationship(attrs) == Some((id, media_target(attr_text(raw)))),
        attr_value(attrs, "Id"@) == Some(id) && attr_value(attrs, "Target"@) == Some(raw) && !type_ends_with(
            attrs,
            "/image"@,
        ) && type_ends_with(attrs, "/hyperlink"@) ==> relationship(attrs) == Some((id, attr_text(raw))),
        !type_ends_with(attrs, "/image"@) && !type_ends_with(attrs, "/hyperlink"@) ==> relationship(attrs) is None,
        attr_value(attrs, "Id"@) is None || attr_value(attrs, "Target"@) is None ==> relationship(attrs) is None,
        xml_unescaped(raw) matches Some(u) ==> attr_text(raw) == u,
        xml_unescaped(raw) is None ==> attr_text(raw) == raw,
{
}

/// A list instance is numbered exactly when the abstract definition it
/// refers to numbers its first level: for `<w:abstractNum
/// w:abstractNumId="a">` with `<w:lvl w:ilvl="0">` formatted `f`, and
/// `<w:num w:numId="k">` referring to `a`, instance `k` is numbered exactly
/// when `f` is a numbered format.
pub proof fn lemma_numbering_definition(
    abs_tag: Seq<char>,
    abs_attrs: Seq<XmlAttrV>,
    lvl_tag: Seq<char>,
    lvl_attrs: Seq<XmlAttrV>,
    fmt_tag: Seq<char>,
    fmt_key: Seq<char>,
    f: Seq<char>,
    num_tag_name: Seq<char>,
    num_attrs: Seq<XmlAttrV>,
    ref_tag: Seq<char>,
    ref_key: Seq<char>,
    ref_value: Seq<char>,
    a: nat,
    k: nat,
)
    requires
        local_name(abs_tag) == "abstractNum"@,
        attr_uint(abs_attrs, "abstractNumId"@, u32::MAX as nat) == Some(a),
        local_name(lvl_tag) == "lvl"@,
        attr_has(lvl_attrs, "ilvl"@, "0"@),
        local_name(fmt_tag) == "numFmt"@,
        local_name(fmt_key) == "val"@,
        local_name(num_tag_name) == "num"@,
        attr_uint(num_attrs, "numId"@, u32::MAX as nat) == Some(k),
        local_name(ref_tag) == "abstractNumId"@,
        local_name(ref_key) == "val"@,
        parsed_uint(ref_value, u32::MAX as nat) == Some(a),
    ensures
        list_is_ordered(
            numbering_from(
                no_numbering(),
                seq![
                    XmlEventV::Start { name: abs_tag, attrs: abs_attrs },
                    XmlEventV::Start { name: lvl_tag, attrs: lvl_attrs },
                    XmlEventV::Empty { name: fmt_tag, attrs: seq![XmlAttrV { key: fmt_key, value: f }] },
                    XmlEventV::End { name: lvl_tag },
                    XmlEventV::Start { name: num_tag_name, attrs: num_attrs },
                    XmlEventV::Empty { name: ref_tag, attrs: seq![XmlAttrV { key: ref_key, value: ref_value }] },
                    XmlEventV::Eof,
                ],
            ),
            k as u32,
        ) == is_ordered_format(f),
{
    reveal_strlit("abstractNum");
    reveal_strlit("lvl");
    reveal_strlit("numFmt");
    reveal_strlit("num");
    reveal_strlit("abstractNumId");
    reveal_strlit("val");
    assert("abstractNum"@.len() == 11 && "lvl"@.len() == 3 && "numFmt"@.len() == 6 && "num"@.len() == 3);
    assert("abstractNumId"@.len() == 13 && "lvl"@[0] == 'l' && "num"@[0] == 'n');
    crate::document_xml::lemma_attr_uint_bound(abs_attrs, "abstractNumId"@, u32::MAX as nat);
    crate::document_xml::lemma_attr_uint_bound(num_attrs, "numId"@, u32::MAX as nat);
    let evs = seq![
        XmlEventV::Start { name: abs_tag, attrs: abs_attrs },
        XmlEventV::Start { name: lvl_tag, attrs: lvl_attrs },
        XmlEventV::Empty { name: fmt_tag, attrs: seq![XmlAttrV { key: fmt_key, value: f }] },
        XmlEventV::End { name: lvl_tag },
        XmlEventV::Start { name: num_tag_name, attrs: num_attrs },
        XmlEventV::Empty { name: ref_tag, attrs: seq![XmlAttrV { key: ref_key, value: ref_value }] },
        XmlEventV::Eof,
    ];
    let fa = seq![XmlAttrV { key: fmt_key, value: f }];
    let ra = seq![XmlAttrV { key: ref_key, value: ref_value }];
    assert(fa.drop_last() =~= Seq::<XmlAttrV>::empty());
    assert(ra.drop_last() =~= Seq::<XmlAttrV>::empty());
    assert(fa.last() == XmlAttrV { key: fmt_key, value: f });
    assert(ra.last() == XmlAttrV { key: ref_key, value: ref_value });
    assert(format_entries(a as u32, Seq::<XmlAttrV>::empty()) =~= Seq::<(u32, bool)>::empty());
    assert(abstract_entries(k as u32, Seq::<XmlAttrV>::empty()) =~= Seq::<(u32, u32)>::empty());
    assert(Seq::<(u32, bool)>::empty().push((a as u32, is_ordered_format(f))) =~= seq![(a as u32, is_ordered_format(f))]);
    assert(Seq::<(u32, u32)>::empty().push((k as u32, a as u32)) =~= seq![(k as u32, a as u32)]);
    assert(format_entries(a as u32, fa) =~= seq![(a as u32, is_ordered_format(f))]);
    assert(abstract_entries(k as u32, ra) =~= seq![(k as u32, a as u32)]);
    let ao = Map::<u32, bool>::empty().insert(a as u32, is_ordered_format(f));
    let na = Map::<u32, u32>::empty().insert(k as u32, a as u32);
    assert(seq![(a as u32, is_ordered_format(f))].drop_last() =~= Seq::<(u32, bool)>::empty());
    let fe = seq![(a as u32, is_ordered_format(f))];
    assert(fe.last() == (a as u32, is_ordered_format(f)));
    assert(first_kept(Map::<u32, bool>::empty(), Seq::<(u32, bool)>::empty()) == Map::<u32, bool>::empty());
    assert(!Map::<u32, bool>::empty().contains_key(a as u32));
    assert(first_kept(Map::empty(), fe) == ao);
    assert(seq![(k as u32, a as u32)].drop_last() =~= Seq::<(u32, u32)>::empty());
    let ne = seq![(k as u32, a as u32)];
    assert(ne.last() == (k as u32, a as u32));
    assert(inserted_all(Map::<u32, u32>::empty(), Seq::<(u32, u32)>::empty()) == Map::<u32, u32>::empty());
    assert(inserted_all(Map::empty(), ne) == na);
    let s0 = no_numbering();
    let s1 = NumScan { abstract_id: Some(a as u32), ..s0 };
    let s2 = NumScan { in_lvl0: true, ..s1 };
    let s3 = NumScan { abstract_ordered: ao, ..s2 };
    let s4 = NumScan { in_lvl0: false, ..s3 };
    let s5 = NumScan { num_id: Some(k as u32), ..s4 };
    let s6 = NumScan { num_to_abstract: na, ..s5 };
    assert(num_event(s0, evs[0]) == s1);
    assert(num_event(s1, evs[1]) == s2);
    assert(num_event(s2, evs[2]) == s3);
    assert(num_event(s3, evs[3]) == s4);
    assert(num_event(s4, evs[4]) == s5);
    assert(num_event(s5, evs[5]) == s6);
    let e6 = evs.skip(6);
    assert(e6 =~= seq![XmlEventV::Eof]);
    assert(numbering_from(s6, e6) == NumberingV { num_to_abstract: na, abstract_ordered: ao });
    assert(evs.skip(5).drop_first() =~= e6);
    assert(numbering_from(s5, evs.skip(5)) == numbering_from(s6, e6));
    assert(evs.skip(4).drop_first() =~= evs.skip(5));
    assert(numbering_from(s4, evs.skip(4)) == numbering_from(s5, evs.skip(5)));
    assert(evs.skip(3).drop_first() =~= evs.skip(4));
    assert(numbering_from(s3, evs.skip(3)) == numbering_from(s4, evs.skip(4)));
    assert(evs.skip(2).drop_first() =~= evs.skip(3));
    assert(numbering_from(s2, evs.skip(2)) == numbering_from(s3, evs.skip(3)));
    assert(evs.skip(1).drop_first() =~= evs.skip(2));
    assert(numbering_from(s1, evs.skip(1)) == numbering_from(s2, evs.skip(2)));
    assert(evs.drop_first() =~= evs.skip(1));
    assert(numbering_from(s0, evs) == numbering_from(s1, evs.skip(1)));
}

} // verus!
