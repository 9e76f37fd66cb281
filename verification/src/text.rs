//! Character-sequence helpers shared by the escaper, the normalizer and the renderer.
//!
//! Texts are modelled as `Seq<char>`; every executable helper here states its
//! result over that model.
use vstd::prelude::*;

verus! {

broadcast use vstd::string::group_string_axioms;

// ── Character classes ────────────────────────────────────────────────────────

/// Unicode `White_Space`, the property that `char::is_whitespace` tests.
pub open spec fn is_ws(c: char) -> bool {
    let u = c as u32;
    ||| 0x09 <= u <= 0x0D
    ||| u == 0x20
    ||| u == 0x85
    ||| u == 0xA0
    ||| u == 0x1680
    ||| 0x2000 <= u <= 0x200A
    ||| u == 0x2028
    ||| u == 0x2029
    ||| u == 0x202F
    ||| u == 0x205F
    ||| u == 0x3000
}

pub open spec fn is_digit(c: char) -> bool {
    '0' <= c && c <= '9'
}

/// `char::is_whitespace`: true exactly for the Unicode `White_Space` characters.
pub fn is_whitespace(c: char) -> (b: bool)
    ensures
        b == is_ws(c),
{
    let u = c as u32;
    (0x09 <= u && u <= 0x0D) || u == 0x20 || u == 0x85 || u == 0xA0 || u == 0x1680 || (0x2000 <= u && u <= 0x200A)
        || u == 0x2028 || u == 0x2029 || u == 0x202F || u == 0x205F || u == 0x3000
}

pub fn is_ascii_digit(c: char) -> (b: bool)
    ensures
        b == is_digit(c),
{
    c >= '0' && c <= '9'
}

/// Appends one character to a string (`String::push`).
/// Trusted: the string afterwards is the old contents followed by `c`.
#[verifier::external_body]
pub(crate) fn push_char(s: &mut String, c: char)
    ensures
        final(s)@ == old(s)@.push(c),
{
    s.push(c)
}

/// The characters of `s`, in order.
pub fn chars_of(s: &str) -> (v: Vec<char>)
    ensures
        v@ == s@,
{
    let mut v: Vec<char> = Vec::new();
    for c in it: s.chars()
        invariant
            v@ == it.seq().take(it.index() as int),
            it.seq() == s@,
    {
        v.push(c);
    }
    v
}

/// A string holding exactly the characters `v[from..to]`.
pub fn string_of(v: &Vec<char>, from: usize, to: usize) -> (s: String)
    requires
        from <= to <= v.len(),
    ensures
        s@ == v@.subrange(from as int, to as int),
{
    let mut s = String::new();
    let mut i = from;
    while i < to
        invariant
            from <= i <= to <= v.len(),
            s@ == v@.subrange(from as int, i as int),
        decreases to - i,
    {
        push_char(&mut s, v[i]);
        i += 1;
        assert(s@ =~= v@.subrange(from as int, i as int));
    }
    s
}


// ── Character classes used for trimming ──────────────────────────────────────

/// The sets of characters that the library trims from the ends of texts.
pub enum CharClass {
    /// Unicode white space.
    Whitespace,
    /// Anything that is not white space.
    NonWhitespace,
    /// `0`–`9`.
    Digit,
    /// `0`–`9` and `.`.
    DigitOrDot,
    /// `0`–`9`, `.` and `-`.
    DigitDotOrDash,
    /// The separators that follow a caption or chapter number:
    /// `:` `.` `-` en dash, em dash and space.
    Separator,
    /// One given character.
    Exactly(char),
    /// Every character but one.
    Except(char),
}

pub open spec fn in_class(c: char, k: CharClass) -> bool {
    match k {
        CharClass::Whitespace => is_ws(c),
        CharClass::NonWhitespace => !is_ws(c),
        CharClass::Digit => is_digit(c),
        CharClass::DigitOrDot => is_digit(c) || c == '.',
        CharClass::DigitDotOrDash => is_digit(c) || c == '.' || c == '-',
        CharClass::Separator => c == ':' || c == '.' || c == '-' || c == '\u{2013}' || c == '\u{2014}' || c == ' ',
        CharClass::Exactly(x) => c == x,
        CharClass::Except(x) => c != x,
    }
}

pub fn class_contains(c: char, k: &CharClass) -> (b: bool)
    ensures
        b == in_class(c, *k),
{
    match k {
        CharClass::Whitespace => is_whitespace(c),
        CharClass::NonWhitespace => !is_whitespace(c),
        CharClass::Digit => is_ascii_digit(c),
        CharClass::DigitOrDot => is_ascii_digit(c) || c == '.',
        CharClass::DigitDotOrDash => is_ascii_digit(c) || c == '.' || c == '-',
        CharClass::Separator => c == ':' || c == '.' || c == '-' || c == '\u{2013}' || c == '\u{2014}' || c == ' ',
        CharClass::Exactly(x) => c == *x,
        CharClass::Except(x) => c != *x,
    }
}

/// How many characters at the start of `s` belong to class `k`.
pub open spec fn lead_count(s: Seq<char>, k: CharClass) -> nat
    decreases s.len(),
{
    if s.len() > 0 && in_class(s[0], k) {
        1 + lead_count(s.drop_first(), k)
    } else {
        0
    }
}

/// How many characters at the end of `s` belong to class `k`.
pub open spec fn trail_count(s: Seq<char>, k: CharClass) -> nat
    decreases s.len(),
{
    if s.len() > 0 && in_class(s.last(), k) {
        1 + trail_count(s.drop_last(), k)
    } else {
        0
    }
}

/// `s` without its leading characters of class `k` (`str::trim_start_matches`).
pub open spec fn skip_lead(s: Seq<char>, k: CharClass) -> Seq<char> {
    s.skip(lead_count(s, k) as int)
}

/// `s` without its trailing characters of class `k` (`str::trim_end_matches`).
pub open spec fn drop_trail(s: Seq<char>, k: CharClass) -> Seq<char> {
    s.take(s.len() - trail_count(s, k))
}

pub open spec fn trim_start(s: Seq<char>) -> Seq<char> {
    skip_lead(s, CharClass::Whitespace)
}

/// `str::trim`: `s` without leading and trailing white space.
pub open spec fn trim(s: Seq<char>) -> Seq<char> {
    drop_trail(skip_lead(s, CharClass::Whitespace), CharClass::Whitespace)
}

pub proof fn lemma_lead_count_bound(s: Seq<char>, k: CharClass)
    ensures
        lead_count(s, k) <= s.len(),
        forall|j: int| 0 <= j < lead_count(s, k) ==> in_class(#[trigger] s[j], k),
        lead_count(s, k) < s.len() ==> !in_class(s[lead_count(s, k) as int], k),
    decreases s.len(),
{
    if s.len() > 0 && in_class(s[0], k) {
        lemma_lead_count_bound(s.drop_first(), k);
        assert forall|j: int| 0 <= j < lead_count(s, k) implies in_class(#[trigger] s[j], k) by {
            if j > 0 {
                assert(s[j] == s.drop_first()[j - 1]);
            }
        }
    }
}

pub proof fn lemma_trail_count_bound(s: Seq<char>, k: CharClass)
    ensures
        trail_count(s, k) <= s.len(),
        forall|j: int| s.len() - trail_count(s, k) <= j < s.len() ==> in_class(#[trigger] s[j], k),
        trail_count(s, k) < s.len() ==> !in_class(s[s.len() - trail_count(s, k) - 1], k),
    decreases s.len(),
{
    if s.len() > 0 && in_class(s.last(), k) {
        lemma_trail_count_bound(s.drop_last(), k);
        assert forall|j: int| s.len() - trail_count(s, k) <= j < s.len() implies in_class(#[trigger] s[j], k) by {
            if j < s.len() - 1 {
                assert(s[j] == s.drop_last()[j]);
            }
        }
    }
}

/// Number of leading characters of `v[from..]` that belong to class `k`.
pub fn lead_len(v: &Vec<char>, from: usize, k: &CharClass) -> (n: usize)
    requires
        from <= v.len(),
    ensures
        n == lead_count(v@.skip(from as int), *k),
        from + n <= v.len(),
{
    let mut i = from;
    while i < v.len() && class_contains(v[i], k)
        invariant
            from <= i <= v.len(),
            lead_count(v@.skip(from as int), *k) == (i - from) + lead_count(v@.skip(i as int), *k),
        decreases v.len() - i,
    {
        assert(v@.skip(i as int).drop_first() =~= v@.skip(i as int + 1));
        i += 1;
    }
    i - from
}

/// Number of trailing characters of `v[..to]` that belong to class `k`.
pub fn trail_len(v: &Vec<char>, to: usize, k: &CharClass) -> (n: usize)
    requires
        to <= v.len(),
    ensures
        n == trail_count(v@.take(to as int), *k),
        n <= to,
{
    let mut i = to;
    while i > 0 && class_contains(v[i - 1], k)
        invariant
            i <= to <= v.len(),
            trail_count(v@.take(to as int), *k) == (to - i) + trail_count(v@.take(i as int), *k),
        decreases i,
    {
        assert(v@.take(i as int).drop_last() =~= v@.take(i as int - 1));
        i -= 1;
    }
    to - i
}

/// A copy of `v[from..to]`.
pub fn slice_of(v: &Vec<char>, from: usize, to: usize) -> (r: Vec<char>)
    requires
        from <= to <= v.len(),
    ensures
        r@ == v@.subrange(from as int, to as int),
{
    let mut r: Vec<char> = Vec::new();
    let mut i = from;
    while i < to
        invariant
            from <= i <= to <= v.len(),
            r@ == v@.subrange(from as int, i as int),
        decreases to - i,
    {
        r.push(v[i]);
        i += 1;
        assert(r@ =~= v@.subrange(from as int, i as int));
    }
    r
}

/// `v` without its leading characters of class `k`.
pub fn skip_leading(v: &Vec<char>, k: &CharClass) -> (r: Vec<char>)
    ensures
        r@ == skip_lead(v@, *k),
{
    let n = lead_len(v, 0, k);
    assert(v@.skip(0) =~= v@);
    let r = slice_of(v, n, v.len());
    assert(r@ =~= v@.skip(n as int));
    r
}

/// `v` without its trailing characters of class `k`.
pub fn drop_trailing(v: &Vec<char>, k: &CharClass) -> (r: Vec<char>)
    ensures
        r@ == drop_trail(v@, *k),
{
    let n = trail_len(v, v.len(), k);
    assert(v@.take(v.len() as int) =~= v@);
    let r = slice_of(v, 0, v.len() - n);
    assert(r@ =~= v@.take(v.len() - n));
    r
}

/// `str::trim` on a character vector.
pub fn trim_chars(v: &Vec<char>) -> (r: Vec<char>)
    ensures
        r@ == trim(v@),
{
    let a = skip_leading(v, &CharClass::Whitespace);
    drop_trailing(&a, &CharClass::Whitespace)
}

// ── Prefixes, suffixes and searching ─────────────────────────────────────────

pub open spec fn starts_with(s: Seq<char>, p: Seq<char>) -> bool {
    p.len() <= s.len() && s.take(p.len() as int) == p
}

pub open spec fn ends_with(s: Seq<char>, p: Seq<char>) -> bool {
    p.len() <= s.len() && s.skip(s.len() - p.len()) == p
}

/// `p` occurs in `s` at position `i`.
pub open spec fn occurs_at(s: Seq<char>, p: Seq<char>, i: int) -> bool {
    0 <= i && i + p.len() <= s.len() && s.subrange(i, i + p.len()) == p
}

pub fn equal_chars(a: &Vec<char>, b: &Vec<char>) -> (r: bool)
    ensures
        r == (a@ == b@),
{
    if a.len() != b.len() {
        return false;
    }
    let mut i: usize = 0;
    while i < a.len()
        invariant
            a.len() == b.len(),
            i <= a.len(),
            forall|j: int| 0 <= j < i ==> a@[j] == b@[j],
        decreases a.len() - i,
    {
        if a[i] != b[i] {
            return false;
        }
        i += 1;
    }
    assert(a@ =~= b@);
    true
}

/// The first position at or after `i` where `p` occurs in `s`.
pub open spec fn find_from(s: Seq<char>, p: Seq<char>, i: int) -> Option<int>
    decreases s.len() + 1 - i,
{
    if i < 0 || i > s.len() {
        None
    } else if occurs_at(s, p, i) {
        Some(i)
    } else {
        find_from(s, p, i + 1)
    }
}

pub proof fn lemma_find_from_occurs(s: Seq<char>, p: Seq<char>, i: int)
    ensures
        find_from(s, p, i) matches Some(k) ==> occurs_at(s, p, k) && i <= k,
    decreases s.len() + 1 - i,
{
    if 0 <= i <= s.len() && !occurs_at(s, p, i) {
        lemma_find_from_occurs(s, p, i + 1);
    }
}

/// `str::find`: the first position at which `p` occurs in `v`.
pub fn find_first(v: &Vec<char>, p: &Vec<char>) -> (r: Option<usize>)
    ensures
        match r {
            Some(i) => find_from(v@, p@, 0) == Some(i as int),
            None => find_from(v@, p@, 0) is None,
        },
{
    let mut i: usize = 0;
    while i < v.len()
        invariant
            i <= v.len(),
            find_from(v@, p@, 0) == find_from(v@, p@, i as int),
        decreases v.len() - i,
    {
        if occurs_at_exec(v, p, i) {
            return Some(i);
        }
        i += 1;
    }
    if occurs_at_exec(v, p, v.len()) {
        return Some(v.len());
    }
    assert(find_from(v@, p@, v@.len() as int + 1) is None);
    None
}

/// `str::contains`.
pub open spec fn contains(s: Seq<char>, p: Seq<char>) -> bool {
    exists|i: int| occurs_at(s, p, i)
}

/// Does `p` occur in `v` at position `i`?
pub fn occurs_at_exec(v: &Vec<char>, p: &Vec<char>, i: usize) -> (b: bool)
    ensures
        b == occurs_at(v@, p@, i as int),
{
    if i > v.len() || p.len() > v.len() - i {
        return false;
    }
    let mut j: usize = 0;
    while j < p.len()
        invariant
            j <= p.len(),
            i + p.len() <= v.len(),
            forall|k: int| 0 <= k < j ==> v@[i + k] == p@[k],
        decreases p.len() - j,
    {
        if v[i + j] != p[j] {
            assert(v@.subrange(i as int, i + p.len())[j as int] != p@[j as int]);
            return false;
        }
        j += 1;
    }
    assert(v@.subrange(i as int, i + p.len()) =~= p@);
    true
}

pub fn starts_with_chars(v: &Vec<char>, p: &Vec<char>) -> (b: bool)
    ensures
        b == starts_with(v@, p@),
{
    let b = occurs_at_exec(v, p, 0);
    assert(v@.take(p@.len() as int) =~= v@.subrange(0, p@.len() as int));
    b
}

pub fn starts_with_str(v: &Vec<char>, p: &str) -> (b: bool)
    ensures
        b == starts_with(v@, p@),
{
    let pc = chars_of(p);
    starts_with_chars(v, &pc)
}

pub fn ends_with_char(v: &Vec<char>, c: char) -> (b: bool)
    ensures
        b == ends_with(v@, seq![c]),
{
    if v.len() == 0 {
        false
    } else {
        let b = v[v.len() - 1] == c;
        assert(b ==> v@.skip(v@.len() - 1) =~= seq![c]);
        assert(v@.skip(v@.len() - 1)[0] == v@[v@.len() - 1]);
        b
    }
}

pub fn ends_with_chars(v: &Vec<char>, p: &Vec<char>) -> (b: bool)
    ensures
        b == ends_with(v@, p@),
{
    if p.len() > v.len() {
        return false;
    }
    let b = occurs_at_exec(v, p, v.len() - p.len());
    assert(v@.skip(v@.len() - p@.len()) =~= v@.subrange(v@.len() - p@.len(), v@.len() as int));
    b
}

/// The first position at which `p` occurs in `v`, if any (`str::find`).
pub fn find_chars(v: &Vec<char>, p: &Vec<char>) -> (r: Option<usize>)
    ensures
        match r {
            Some(i) => occurs_at(v@, p@, i as int) && forall|j: int| 0 <= j < i ==> !occurs_at(v@, p@, j),
            None => !contains(v@, p@),
        },
{
    let mut i: usize = 0;
    while i < v.len()
        invariant
            i <= v.len(),
            forall|j: int| 0 <= j < i ==> !occurs_at(v@, p@, j),
        decreases v.len() - i,
    {
        if occurs_at_exec(v, p, i) {
            return Some(i);
        }
        i += 1;
    }
    if occurs_at_exec(v, p, v.len()) {
        return Some(v.len());
    }
    assert forall|j: int| !occurs_at(v@, p@, j) by {
        if 0 <= j && j > v@.len() {
            assert(!(j + p@.len() <= v@.len()));
        }
    }
    None
}

pub fn contains_chars(v: &Vec<char>, p: &Vec<char>) -> (b: bool)
    ensures
        b == contains(v@, p@),
{
    find_chars(v, p).is_some()
}

pub fn contains_str(v: &Vec<char>, p: &str) -> (b: bool)
    ensures
        b == contains(v@, p@),
{
    let pc = chars_of(p);
    contains_chars(v, &pc)
}

/// Number of non-overlapping occurrences of `p` in `s[i..]`, scanning from the
/// left (`str::matches(..).count()`).
pub open spec fn count_matches_from(s: Seq<char>, p: Seq<char>, i: int) -> nat
    decreases s.len() - i,
{
    if p.len() == 0 || i < 0 || i + p.len() > s.len() {
        0
    } else if occurs_at(s, p, i) {
        1 + count_matches_from(s, p, i + p.len())
    } else {
        count_matches_from(s, p, i + 1)
    }
}

pub fn count_matches(v: &Vec<char>, p: &Vec<char>) -> (n: usize)
    requires
        p.len() > 0,
    ensures
        n == count_matches_from(v@, p@, 0),
{
    let mut i: usize = 0;
    let mut n: usize = 0;
    while i <= v.len() && p.len() <= v.len() - i
        invariant
            p.len() > 0,
            n <= i,
            count_matches_from(v@, p@, 0) == n + count_matches_from(v@, p@, i as int),
        decreases v.len() - i,
    {
        if occurs_at_exec(v, p, i) {
            n += 1;
            i += p.len();
        } else {
            i += 1;
        }
    }
    n
}

// ── Case mapping and character properties ────────────────────────────────────

pub open spec fn ascii_lower_char(c: char) -> char {
    if 'A' <= c && c <= 'Z' {
        ((c as u32) + 32) as char
    } else {
        c
    }
}

/// `str::to_ascii_lowercase`.
pub open spec fn ascii_lower(s: Seq<char>) -> Seq<char> {
    s.map_values(|c: char| ascii_lower_char(c))
}

/// `char::to_ascii_lowercase`: ASCII capitals become small letters, every
/// other character is returned unchanged.
pub fn to_ascii_lower_char(c: char) -> (r: char)
    ensures
        r == ascii_lower_char(c),
{
    if 'A' <= c && c <= 'Z' {
        let b = (c as u8) + 32;
        assert(b == (c as u32) + 32);
        b as char
    } else {
        c
    }
}

pub fn ascii_lowercase(v: &Vec<char>) -> (r: Vec<char>)
    ensures
        r@ == ascii_lower(v@),
{
    let mut r: Vec<char> = Vec::new();
    let mut i: usize = 0;
    while i < v.len()
        invariant
            i <= v.len(),
            r@ == ascii_lower(v@.take(i as int)),
        decreases v.len() - i,
    {
        r.push(to_ascii_lower_char(v[i]));
        i += 1;
        assert(r@ =~= ascii_lower(v@.take(i as int)));
    }
    assert(v@.take(i as int) =~= v@);
    r
}

pub open spec fn ascii_upper_char(c: char) -> char {
    if 'a' <= c && c <= 'z' {
        ((c as u32) - 32) as char
    } else {
        c
    }
}

/// Text made of ASCII characters only.
pub open spec fn is_ascii_text(s: Seq<char>) -> bool {
    forall|i: int| 0 <= i < s.len() ==> (#[trigger] s[i] as u32) < 128
}

/// What `str::to_lowercase` returns (full Unicode case mapping).
pub uninterp spec fn unicode_lowercase(s: Seq<char>) -> Seq<char>;

/// What `str::to_uppercase` returns (full Unicode case mapping).
pub uninterp spec fn unicode_uppercase(s: Seq<char>) -> Seq<char>;

/// Whether the character has the Unicode `Alphabetic` property (`char::is_alphabetic`).
pub uninterp spec fn unicode_alphabetic(c: char) -> bool;

/// Whether the character has the Unicode `Uppercase` property (`char::is_uppercase`).
pub uninterp spec fn unicode_upper(c: char) -> bool;

/// Whether the character has the Unicode `Lowercase` property (`char::is_lowercase`).
pub uninterp spec fn unicode_lower(c: char) -> bool;

/// `str::to_lowercase`: the Unicode lower-case mapping of the whole string.
/// On ASCII text it maps each capital to its small letter and leaves every
/// other character as it is, as Unicode's case mapping does for ASCII.
#[verifier::external_body]
pub(crate) fn to_lowercase(s: &str) -> (r: String)
    ensures
        r@ == unicode_lowercase(s@),
        is_ascii_text(s@) ==> r@ == s@.map_values(|c: char| ascii_lower_char(c)),
{
    s.to_lowercase()
}

/// `str::to_uppercase`: the Unicode upper-case mapping of the whole string.
/// On ASCII text it maps each small letter to its capital and leaves every
/// other character as it is.
#[verifier::external_body]
pub(crate) fn to_uppercase(s: &str) -> (r: String)
    ensures
        r@ == unicode_uppercase(s@),
        is_ascii_text(s@) ==> r@ == s@.map_values(|c: char| ascii_upper_char(c)),
{
    s.to_uppercase()
}

/// `char::is_alphabetic`; among ASCII characters exactly the letters are
/// alphabetic.
#[verifier::external_body]
pub(crate) fn is_alphabetic(c: char) -> (b: bool)
    ensures
        b == unicode_alphabetic(c),
        (c as u32) < 128 ==> (b == (('a' <= c && c <= 'z') || ('A' <= c && c <= 'Z'))),
{
    c.is_alphabetic()
}

/// `char::is_uppercase`; among ASCII characters exactly the capitals are
/// upper case.
#[verifier::external_body]
pub(crate) fn is_uppercase(c: char) -> (b: bool)
    ensures
        b == unicode_upper(c),
        (c as u32) < 128 ==> (b == ('A' <= c && c <= 'Z')),
{
    c.is_uppercase()
}

/// `char::is_lowercase`; among ASCII characters exactly the small letters
/// are lower case.
#[verifier::external_body]
pub(crate) fn is_lowercase(c: char) -> (b: bool)
    ensures
        b == unicode_lower(c),
        (c as u32) < 128 ==> (b == ('a' <= c && c <= 'z')),
{
    c.is_lowercase()
}

/// Unicode lower case of a character vector.
pub fn lowercase_chars(v: &Vec<char>) -> (r: Vec<char>)
    ensures
        r@ == unicode_lowercase(v@),
{
    let s = string_of(v, 0, v.len());
    assert(v@.subrange(0, v@.len() as int) =~= v@);
    let l = to_lowercase(s.as_str());
    chars_of(l.as_str())
}

/// Unicode upper case of a character vector.
pub fn uppercase_chars(v: &Vec<char>) -> (r: Vec<char>)
    ensures
        r@ == unicode_uppercase(v@),
{
    let s = string_of(v, 0, v.len());
    assert(v@.subrange(0, v@.len() as int) =~= v@);
    let u = to_uppercase(s.as_str());
    chars_of(u.as_str())
}

// ── Decimal numbers ──────────────────────────────────────────────────────────

pub open spec fn digit_char(d: nat) -> char {
    ((48 + d) as u32) as char
}

/// The decimal digits of `n`, without leading zeros.
pub open spec fn decimal(n: nat) -> Seq<char>
    decreases n,
{
    if n < 10 {
        seq![digit_char(n)]
    } else {
        decimal(n / 10).push(digit_char(n % 10))
    }
}

/// `n` hundredths written with two decimals, as `{:.2}` prints it.
pub open spec fn fixed2(n: nat) -> Seq<char> {
    decimal(n / 100) + seq!['.', digit_char((n % 100) / 10), digit_char(n % 10)]
}

pub fn digit(d: u64) -> (c: char)
    requires
        d < 10,
    ensures
        c == digit_char(d as nat),
{
    match d {
        0 => '0',
        1 => '1',
        2 => '2',
        3 => '3',
        4 => '4',
        5 => '5',
        6 => '6',
        7 => '7',
        8 => '8',
        _ => '9',
    }
}

/// Appends the decimal digits of `n`.
pub fn push_decimal(out: &mut String, n: u64)
    ensures
        final(out)@ == old(out)@ + decimal(n as nat),
    decreases n,
{
    if n >= 10 {
        push_decimal(out, n / 10);
    }
    push_char(out, digit(n % 10));
    assert(final(out)@ =~= old(out)@ + decimal(n as nat));
}

/// Appends `n` hundredths with two decimals.
pub fn push_fixed2(out: &mut String, n: u64)
    ensures
        final(out)@ == old(out)@ + fixed2(n as nat),
{
    push_decimal(out, n / 100);
    push_char(out, '.');
    push_char(out, digit((n % 100) / 10));
    push_char(out, digit(n % 10));
    assert(final(out)@ =~= old(out)@ + fixed2(n as nat));
}

// ── Unsigned integers ────────────────────────────────────────────────────────

/// The value of a sequence of decimal digits.
pub open spec fn digits_value(d: Seq<char>) -> nat
    decreases d.len(),
{
    if d.len() == 0 {
        0
    } else {
        digits_value(d.drop_last()) * 10 + ((d.last() as u32) - 48) as nat
    }
}

/// What `str::parse` gives for an unsigned integer type whose largest value
/// is `max`: an optional `+` followed by one or more ASCII digits whose value
/// is at most `max`.
pub open spec fn parsed_uint(s: Seq<char>, max: nat) -> Option<nat> {
    let d = if s.len() > 0 && s[0] == '+' { s.drop_first() } else { s };
    if d.len() > 0 && all_digits(d) && digits_value(d) <= max {
        Some(digits_value(d))
    } else {
        None
    }
}

/// `str::parse::<u8>()`, `::<u32>()` or `::<u64>()` according to `max`.
pub fn parse_uint(v: &Vec<char>, max: u64) -> (r: Option<u64>)
    requires
        max >= 9,
    ensures
        match r {
            Some(n) => parsed_uint(v@, max as nat) == Some(n as nat),
            None => parsed_uint(v@, max as nat) is None,
        },
{
    let start: usize = if v.len() > 0 && v[0] == '+' { 1 } else { 0 };
    let ghost d = if v@.len() > 0 && v@[0] == '+' { v@.drop_first() } else { v@ };
    assert(d =~= v@.skip(start as int));
    if start >= v.len() {
        return None;
    }
    let mut value: u64 = 0;
    let mut i = start;
    while i < v.len()
        invariant
            start <= i <= v.len(),
            start < v.len(),
            max >= 9,
            d =~= v@.skip(start as int),
            d == (if v@.len() > 0 && v@[0] == '+' { v@.drop_first() } else { v@ }),
            value == digits_value(v@.subrange(start as int, i as int)),
            value <= max,
            all_digits(v@.subrange(start as int, i as int)),
        decreases v.len() - i,
    {
        let c = v[i];
        let ghost pre = v@.subrange(start as int, i as int);
        let ghost next = v@.subrange(start as int, i as int + 1);
        assert(next.drop_last() =~= pre);
        if !is_ascii_digit(c) {
            assert(d[i - start] == c);
            assert(!is_digit(d[i - start]));
            assert(!all_digits(d));
            assert(parsed_uint(v@, max as nat) is None);
            return None;
        }
        let dv = (c as u32 - 48) as u64;
        if value > (max - dv) / 10 {
            proof {
                if all_digits(d) {
                    lemma_digits_value_prefix_mono(d, (i - start + 1) as int);
                }
                assert(d.take((i - start + 1) as int) =~= next);
                assert(digits_value(next) == value * 10 + dv) by (nonlinear_arith)
                    requires digits_value(next) == digits_value(pre) * 10 + dv, value == digits_value(pre);
                assert(value * 10 + dv > max) by (nonlinear_arith)
                    requires value > (max - dv) / 10, dv <= max || value >= 1, dv <= 9;
            }
            return None;
        }
        assert(value * 10 + dv <= max) by (nonlinear_arith)
            requires value <= (max - dv) / 10, dv <= max;
        value = value * 10 + dv;
        i += 1;
        assert(all_digits(next));
    }
    assert(v@.subrange(start as int, i as int) =~= d);
    Some(value)
}

pub proof fn lemma_digits_value_prefix_mono(d: Seq<char>, n: int)
    requires
        0 <= n <= d.len(),
        all_digits(d),
    ensures
        digits_value(d.take(n)) <= digits_value(d),
    decreases d.len(),
{
    if n < d.len() {
        assert(d.take(n) =~= d.drop_last().take(n));
        lemma_digits_value_prefix_mono(d.drop_last(), n);
        assert(is_digit(d[d.len() - 1]));
    } else {
        assert(d.take(n) =~= d);
    }
}

// ── UTF-8 length ─────────────────────────────────────────────────────────────

/// Number of bytes in the UTF-8 encoding of `c` (`char::len_utf8`).
pub open spec fn utf8_width(c: char) -> nat {
    let u = c as u32;
    if u < 0x80 {
        1
    } else if u < 0x800 {
        2
    } else if u < 0x10000 {
        3
    } else {
        4
    }
}

/// Number of bytes in the UTF-8 encoding of `s` (`str::len`).
pub open spec fn utf8_len(s: Seq<char>) -> nat
    decreases s.len(),
{
    if s.len() == 0 {
        0
    } else {
        utf8_len(s.drop_last()) + utf8_width(s.last())
    }
}

/// Is the UTF-8 encoding of `v` longer than `limit` bytes?
pub fn utf8_len_exceeds(v: &Vec<char>, limit: usize) -> (b: bool)
    ensures
        b == (utf8_len(v@) > limit),
{
    let mut total: usize = 0;
    let mut i: usize = 0;
    while i < v.len()
        invariant
            i <= v.len(),
            total == utf8_len(v@.take(i as int)),
            total <= limit,
        decreases v.len() - i,
    {
        let u = v[i] as u32;
        let w: usize = if u < 0x80 { 1 } else if u < 0x800 { 2 } else if u < 0x10000 { 3 } else { 4 };
        assert(v@.take(i as int + 1).drop_last() =~= v@.take(i as int));
        if w > limit - total {
            proof { lemma_utf8_len_prefix_mono(v@, i as int + 1); }
            return true;
        }
        total += w;
        i += 1;
    }
    assert(v@.take(i as int) =~= v@);
    false
}

/// The UTF-8 length of a prefix never exceeds that of the whole.
pub proof fn lemma_utf8_len_prefix_mono(s: Seq<char>, n: int)
    requires
        0 <= n <= s.len(),
    ensures
        utf8_len(s.take(n)) <= utf8_len(s),
    decreases s.len(),
{
    if n < s.len() {
        assert(s.take(n) =~= s.drop_last().take(n));
        lemma_utf8_len_prefix_mono(s.drop_last(), n);
    } else {
        assert(s.take(n) =~= s);
    }
}

/// The UTF-8 length of prefixes grows with the prefix.
pub proof fn lemma_utf8_len_take_mono(s: Seq<char>, a: int, b: int)
    requires
        0 <= a <= b <= s.len(),
    ensures
        utf8_len(s.take(a)) <= utf8_len(s.take(b)),
{
    assert(s.take(b).take(a) =~= s.take(a));
    lemma_utf8_len_prefix_mono(s.take(b), a);
}

/// The number of characters of `v` whose UTF-8 encoding takes exactly `b`
/// bytes, if `b` falls on a character boundary of `v`.
pub fn char_index_at_byte(v: &Vec<char>, b: usize) -> (r: Option<usize>)
    ensures
        match r {
            Some(k) => k <= v.len() && utf8_len(v@.take(k as int)) == b,
            None => forall|k: int| 0 <= k <= v.len() ==> utf8_len(#[trigger] v@.take(k)) != b,
        },
{
    let mut total: usize = 0;
    let mut i: usize = 0;
    assert(v@.take(0) =~= Seq::<char>::empty());
    while i < v.len()
        invariant
            i <= v.len(),
            total == utf8_len(v@.take(i as int)),
            total <= b,
            forall|k: int| 0 <= k < i ==> utf8_len(#[trigger] v@.take(k)) < b,
        decreases v.len() - i,
    {
        if total == b {
            return Some(i);
        }
        let u = v[i] as u32;
        let w: usize = if u < 0x80 { 1 } else if u < 0x800 { 2 } else if u < 0x10000 { 3 } else { 4 };
        assert(v@.take(i as int + 1).drop_last() =~= v@.take(i as int));
        let ghost old_i = i;
        if w > b - total {
            assert forall|k: int| 0 <= k <= v.len() implies utf8_len(#[trigger] v@.take(k)) != b by {
                if k > old_i {
                    lemma_utf8_len_take_mono(v@, old_i + 1, k);
                }
            }
            return None;
        }
        total += w;
        i += 1;
    }
    if total == b {
        Some(i)
    } else {
        None
    }
}

// ── Words ────────────────────────────────────────────────────────────────────

/// Position `i` of `s` starts a white-space separated word.
pub open spec fn word_starts_at(s: Seq<char>, i: int) -> bool {
    0 <= i < s.len() && !is_ws(s[i]) && (i == 0 || is_ws(s[i - 1]))
}

/// `str::split_whitespace().count()`.
pub open spec fn word_count(s: Seq<char>) -> nat
    decreases s.len(),
{
    if s.len() == 0 {
        0
    } else {
        word_count(s.drop_last()) + if word_starts_at(s, s.len() - 1) { 1nat } else { 0nat }
    }
}

/// `str::split_whitespace().next().unwrap_or("")`.
pub open spec fn first_word(s: Seq<char>) -> Seq<char> {
    let t = trim_start(s);
    t.take(lead_count(t, CharClass::NonWhitespace) as int)
}

pub fn count_words(v: &Vec<char>) -> (n: usize)
    ensures
        n == word_count(v@),
{
    let mut n: usize = 0;
    let mut i: usize = 0;
    while i < v.len()
        invariant
            i <= v.len(),
            n == word_count(v@.take(i as int)),
            n <= i,
        decreases v.len() - i,
    {
        let starts = !is_whitespace(v[i]) && (i == 0 || is_whitespace(v[i - 1]));
        let ghost t = v@.take(i as int + 1);
        assert(t.drop_last() =~= v@.take(i as int));
        assert(starts == word_starts_at(t, i as int));
        if starts {
            n += 1;
        }
        i += 1;
    }
    assert(v@.take(i as int) =~= v@);
    n
}

pub fn first_word_chars(v: &Vec<char>) -> (r: Vec<char>)
    ensures
        r@ == first_word(v@),
{
    let t = skip_leading(v, &CharClass::Whitespace);
    let n = lead_len(&t, 0, &CharClass::NonWhitespace);
    assert(t@.skip(0) =~= t@);
    let r = slice_of(&t, 0, n);
    assert(r@ =~= t@.take(n as int));
    r
}

/// Every character is an ASCII digit.
pub open spec fn all_digits(s: Seq<char>) -> bool {
    forall|i: int| 0 <= i < s.len() ==> is_digit(#[trigger] s[i])
}

pub fn all_digits_exec(v: &Vec<char>) -> (b: bool)
    ensures
        b == all_digits(v@),
{
    let mut i: usize = 0;
    while i < v.len()
        invariant
            i <= v.len(),
            forall|j: int| 0 <= j < i ==> is_digit(#[trigger] v@[j]),
        decreases v.len() - i,
    {
        if !is_ascii_digit(v[i]) {
            return false;
        }
        i += 1;
    }
    true
}

/// `w.split('.')` yields only non-empty groups of ASCII digits: `w` is a
/// dotted number such as `1`, `1.2` or `1.2.3`.
pub open spec fn is_dotted_number(w: Seq<char>) -> bool {
    &&& w.len() > 0
    &&& forall|i: int| 0 <= i < w.len() ==> is_digit(#[trigger] w[i]) || w[i] == '.'
    &&& w[0] != '.'
    &&& w.last() != '.'
    &&& forall|i: int| 0 <= i < w.len() - 1 ==> !(#[trigger] w[i] == '.' && w[i + 1] == '.')
}

/// Number of `.` characters in `w`.
pub open spec fn dot_count(w: Seq<char>) -> nat
    decreases w.len(),
{
    if w.len() == 0 {
        0
    } else {
        dot_count(w.drop_last()) + if w.last() == '.' { 1nat } else { 0nat }
    }
}

/// If `w` is a dotted number, the number of its groups (dots + 1).
pub fn dotted_groups(w: &Vec<char>) -> (r: Option<usize>)
    ensures
        match r {
            Some(n) => is_dotted_number(w@) && n == dot_count(w@) + 1,
            None => !is_dotted_number(w@),
        },
{
    if w.len() == 0 || w[0] == '.' || w[w.len() - 1] == '.' {
        return None;
    }
    let mut dots: usize = 0;
    let mut i: usize = 0;
    while i < w.len()
        invariant
            0 < w.len(),
            i <= w.len(),
            dots == dot_count(w@.take(i as int)),
            dots <= i,
            i > 0 ==> dots < i,
            w@[0] != '.',
            forall|j: int| 0 <= j < i ==> is_digit(#[trigger] w@[j]) || w@[j] == '.',
            forall|j: int| 0 <= j < i - 1 ==> !(#[trigger] w@[j] == '.' && w@[j + 1] == '.'),
        decreases w.len() - i,
    {
        let c = w[i];
        if !(is_ascii_digit(c) || c == '.') {
            return None;
        }
        if c == '.' && i > 0 && w[i - 1] == '.' {
            return None;
        }
        assert(w@.take(i as int + 1).drop_last() =~= w@.take(i as int));
        if c == '.' {
            dots += 1;
        }
        i += 1;
    }
    assert(w@.take(i as int) =~= w@);
    Some(dots + 1)
}

} // verus!
