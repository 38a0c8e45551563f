//! String helpers with byte- and character-level contracts.
use vstd::prelude::*;
use vstd::utf8::*;
use vstd::string::*;
use vstd::std_specs::iter::IteratorSpec;

verus! {

broadcast use vstd::utf8::group_utf8_lib, vstd::string::group_string_axioms;

/// The decimal digits of `n`, most significant first, without sign or padding.
pub open spec fn decimal(n: nat) -> Seq<char>
    decreases n,
{
    if n < 10 {
        seq![digit_char(n)]
    } else {
        decimal(n / 10).push(digit_char(n % 10))
    }
}

/// The ASCII digit for a value below ten.
pub open spec fn digit_char(d: nat) -> char {
    if d == 0 { '0' }
    else if d == 1 { '1' }
    else if d == 2 { '2' }
    else if d == 3 { '3' }
    else if d == 4 { '4' }
    else if d == 5 { '5' }
    else if d == 6 { '6' }
    else if d == 7 { '7' }
    else if d == 8 { '8' }
    else { '9' }
}

/// The lowercase hexadecimal digit for a value below sixteen.
pub open spec fn hex_digit(d: nat) -> char {
    if d < 10 { digit_char(d) }
    else if d == 10 { 'a' }
    else if d == 11 { 'b' }
    else if d == 12 { 'c' }
    else if d == 13 { 'd' }
    else if d == 14 { 'e' }
    else { 'f' }
}

/// The lowercase hexadecimal digits of `n`, most significant first, without prefix or
/// padding (as `format!("{:x}", n)` writes them).
pub open spec fn hex(n: nat) -> Seq<char>
    decreases n,
{
    if n < 16 {
        seq![hex_digit(n)]
    } else {
        hex(n / 16).push(hex_digit(n % 16))
    }
}

fn hex_char(d: u64) -> (c: char)
    requires
        d < 16,
    ensures
        c == hex_digit(d as nat),
{
    if d == 0 { '0' } else if d == 1 { '1' } else if d == 2 { '2' } else if d == 3 { '3' }
    else if d == 4 { '4' } else if d == 5 { '5' } else if d == 6 { '6' } else if d == 7 { '7' }
    else if d == 8 { '8' } else if d == 9 { '9' } else if d == 10 { 'a' } else if d == 11 { 'b' }
    else if d == 12 { 'c' } else if d == 13 { 'd' } else if d == 14 { 'e' } else { 'f' }
}

/// The lowercase hexadecimal rendering of a value.
pub fn u64_to_hex(n: u64) -> (r: String)
    ensures
        r@ == hex(n as nat),
    decreases n,
{
    let mut s = if n < 16 { String::new() } else { u64_to_hex(n / 16) };
    proof {
        if n < 16 {
            assert(s@ =~= Seq::<char>::empty());
        }
    }
    push_char(&mut s, hex_char(n % 16));
    proof {
        if n < 16 {
            assert(s@ =~= seq![hex_digit(n as nat)]);
        }
    }
    s
}

/// The decimal rendering of a value, as `usize::to_string` gives it.
pub(crate) fn usize_to_string(n: usize) -> (s: String)
    ensures
        s@ == decimal(n as nat),
    decreases n,
{
    let mut s = if n < 10 { String::new() } else { usize_to_string(n / 10) };
    proof {
        if n < 10 {
            assert(s@ =~= Seq::<char>::empty());
        }
    }
    push_char(&mut s, digit_of(n % 10));
    proof {
        if n < 10 {
            assert(s@ =~= seq![digit_char(n as nat)]);
        }
    }
    s
}

fn digit_of(d: usize) -> (c: char)
    requires
        d < 10,
    ensures
        c == digit_char(d as nat),
{
    if d == 0 { '0' } else if d == 1 { '1' } else if d == 2 { '2' } else if d == 3 { '3' }
    else if d == 4 { '4' } else if d == 5 { '5' } else if d == 6 { '6' } else if d == 7 { '7' }
    else if d == 8 { '8' } else { '9' }
}

/// Byte-wise equality of two string slices.
pub fn str_eq(a: &str, b: &str) -> (r: bool)
    ensures
        r == (a@ == b@),
{
    let ab = a.as_bytes();
    let bb = b.as_bytes();
    proof {
        encode_utf8_decode_utf8(a@);
        encode_utf8_decode_utf8(b@);
    }
    if ab.len() != bb.len() {
        return false;
    }
    let mut i: usize = 0;
    while i < ab.len()
        invariant
            ab@ == a.spec_bytes(),
            bb@ == b.spec_bytes(),
            ab@.len() == bb@.len(),
            i <= ab@.len(),
            forall|j: int| 0 <= j < i ==> ab@[j] == bb@[j],
        decreases ab@.len() - i,
    {
        if ab[i] != bb[i] {
            return false;
        }
        i = i + 1;
    }
    assert(ab@ =~= bb@);
    true
}

/// Concatenation of two string slices into a new `String`.
pub fn concat2(a: &str, b: &str) -> (r: String)
    ensures
        r@ == a@ + b@,
{
    let mut s = String::from_str(a);
    s.append(b);
    s
}

/// Concatenation of three string slices into a new `String`.
pub fn concat3(a: &str, b: &str, c: &str) -> (r: String)
    ensures
        r@ == a@ + b@ + c@,
{
    let mut s = String::from_str(a);
    s.append(b);
    s.append(c);
    s
}

/// Concatenation of four string slices into a new `String`.
pub fn concat4(a: &str, b: &str, c: &str, d: &str) -> (r: String)
    ensures
        r@ == a@ + b@ + c@ + d@,
{
    let mut s = String::from_str(a);
    s.append(b);
    s.append(c);
    s.append(d);
    s
}


/// The characters of a string slice, in order.
pub fn chars_of(s: &str) -> (r: Vec<char>)
    ensures
        r@ == s@,
{
    let mut it = s.chars();
    let mut r: Vec<char> = Vec::new();
    loop
        invariant
            r@ + it.remaining() == s@,
            it.obeys_prophetic_iter_laws(),
            it.decrease() is Some,
        ensures
            r@ == s@,
        decreases it.decrease()->0,
    {
        let ghost before = it.remaining();
        match it.next() {
            Some(c) => {
                r.push(c);
                assert(r@ + it.remaining() =~= s@) by {
                    assert(before =~= seq![c] + it.remaining());
                }
            },
            None => {
                assert(r@ =~= s@);
                break;
            },
        }
    }
    r
}

/// `String::push`: append one character.
#[verifier::external_body]
pub(crate) fn push_char(s: &mut String, c: char)
    ensures
        final(s)@ == old(s)@.push(c),
{
    s.push(c);
}

/// A `String` holding exactly the given characters.
pub fn string_from_chars(v: &[char]) -> (r: String)
    ensures
        r@ == v@,
{
    let mut r = String::new();
    let mut i: usize = 0;
    while i < v.len()
        invariant
            i <= v@.len(),
            r@ == v@.take(i as int),
        decreases v@.len() - i,
    {
        push_char(&mut r, v[i]);
        assert(r@ =~= v@.take(i + 1));
        i = i + 1;
    }
    assert(v@.take(v@.len() as int) =~= v@);
    r
}

/// A `String` holding the characters `v[from..to]`.
pub fn string_from_char_range(v: &[char], from: usize, to: usize) -> (r: String)
    requires
        from <= to <= v@.len(),
    ensures
        r@ == v@.subrange(from as int, to as int),
{
    let mut r = String::new();
    let mut i: usize = from;
    while i < to
        invariant
            from <= i <= to,
            to <= v@.len(),
            r@ == v@.subrange(from as int, i as int),
        decreases to - i,
    {
        push_char(&mut r, v[i]);
        assert(r@ =~= v@.subrange(from as int, i + 1));
        i = i + 1;
    }
    r
}

/// The largest char boundary of `b` that is at most `k` (zero is always one).
pub open spec fn floor_char_boundary(b: Seq<u8>, k: int) -> int
    decreases k,
{
    if k <= 0 {
        0
    } else if is_char_boundary(b, k) {
        k
    } else {
        floor_char_boundary(b, k - 1)
    }
}

pub proof fn lemma_floor_char_boundary(b: Seq<u8>, k: int)
    requires
        valid_utf8(b),
        0 <= k <= b.len(),
    ensures
        0 <= floor_char_boundary(b, k) <= k,
        is_char_boundary(b, floor_char_boundary(b, k)),
    decreases k,
{
    if k > 0 && !is_char_boundary(b, k) {
        lemma_floor_char_boundary(b, k - 1);
    }
    if k <= 0 {
        is_char_boundary_start_end_of_seq(b);
    }
}

proof fn lemma_floor_le(b: Seq<u8>, k: int)
    ensures
        floor_char_boundary(b, k) <= (if k >= 0 { k } else { 0 }),
        floor_char_boundary(b, k) >= 0,
    decreases k,
{
    if k > 0 && !is_char_boundary(b, k) {
        lemma_floor_le(b, k - 1);
    }
}

/// A capped text is no longer than the text, nor than the cap when it was cut.
pub proof fn lemma_capped_len(text: Seq<u8>, max_bytes: int)
    requires
        max_bytes >= 0,
    ensures
        capped_bytes(text, max_bytes).len() <= text.len(),
        text.len() > max_bytes ==> capped_bytes(text, max_bytes).len() <= max_bytes,
{
    if text.len() > max_bytes {
        lemma_floor_le(text, max_bytes);
    }
}

/// The bytes of a `String`.
pub open spec fn string_bytes(s: Seq<char>) -> Seq<u8> {
    encode_utf8(s)
}

/// The text itself if it has at most `max_bytes` bytes, else its longest prefix of at
/// most `max_bytes` bytes that ends on a character boundary.
pub open spec fn capped_bytes(text: Seq<u8>, max_bytes: int) -> Seq<u8> {
    if text.len() > max_bytes {
        text.take(floor_char_boundary(text, max_bytes))
    } else {
        text
    }
}

/// Cap a text at `max_bytes` bytes without splitting a character.
pub fn capped_text(text: &str, max_bytes: usize) -> (r: String)
    ensures
        string_bytes(r@) == capped_bytes(text.spec_bytes(), max_bytes as int),
{
    let n = text.as_bytes().len();
    if n > max_bytes {
        let mut bound = max_bytes;
        proof { lemma_floor_char_boundary(text.spec_bytes(), max_bytes as int); }
        while bound > 0 && !text.is_char_boundary(bound)
            invariant
                bound <= max_bytes < text.spec_bytes().len(),
                floor_char_boundary(text.spec_bytes(), bound as int)
                    == floor_char_boundary(text.spec_bytes(), max_bytes as int),
            decreases bound,
        {
            bound = bound - 1;
        }
        proof { lemma_floor_char_boundary(text.spec_bytes(), bound as int); }
        assert(floor_char_boundary(text.spec_bytes(), bound as int) == bound);
        let (head, _tail) = text.split_at(bound);
        let r = head.to_owned();
        assert(string_bytes(r@) == head.spec_bytes());
        assert(head.spec_bytes() =~= text.spec_bytes().take(bound as int));
        assert(string_bytes(r@) == capped_bytes(text.spec_bytes(), max_bytes as int));
        r
    } else {
        let r = text.to_owned();
        assert(string_bytes(r@) == text.spec_bytes());
        r
    }
}


// ---------------------------------------------------------------------------
// Character-level helpers
// ---------------------------------------------------------------------------

/// Characters with the Unicode `White_Space` property, as `char::is_whitespace` tests.
pub open spec fn is_unicode_whitespace(c: char) -> bool {
    ||| c == ' ' || c == '\t' || c == '\n' || c == '\x0B' || c == '\x0C' || c == '\r'
    ||| c == '\u{85}' || c == '\u{A0}' || c == '\u{1680}'
    ||| ('\u{2000}' <= c && c <= '\u{200A}')
    ||| c == '\u{2028}' || c == '\u{2029}' || c == '\u{202F}' || c == '\u{205F}' || c == '\u{3000}'
}

/// A set of characters to trim.
#[derive(Debug, Clone, Copy, PartialEq, Eq, Structural)]
pub enum CharSet {
    /// Unicode whitespace.
    Whitespace,
    /// `"`.
    DoubleQuote,
    /// `"` and `'`.
    Quotes,
    /// `"`, `'` and backtick.
    QuotesOrBacktick,
    /// `(` and `)`.
    Parens,
    /// `@`.
    At,
    /// `/`.
    Slash,
    /// `]`.
    CloseBracket,
    /// Backtick.
    Backtick,
}

/// Membership in a character set.
pub open spec fn in_set(set: CharSet, c: char) -> bool {
    match set {
        CharSet::Whitespace => is_unicode_whitespace(c),
        CharSet::DoubleQuote => c == '"',
        CharSet::Quotes => c == '"' || c == '\'',
        CharSet::QuotesOrBacktick => c == '"' || c == '\'' || c == '`',
        CharSet::Parens => c == '(' || c == ')',
        CharSet::At => c == '@',
        CharSet::Slash => c == '/',
        CharSet::CloseBracket => c == ']',
        CharSet::Backtick => c == '`',
    }
}

/// `char::is_whitespace`.
pub fn char_is_whitespace(c: char) -> (r: bool)
    ensures
        r == is_unicode_whitespace(c),
{
    c == ' ' || c == '\t' || c == '\n' || c == '\x0B' || c == '\x0C' || c == '\r'
        || c == '\u{85}' || c == '\u{A0}' || c == '\u{1680}'
        || ('\u{2000}' <= c && c <= '\u{200A}')
        || c == '\u{2028}' || c == '\u{2029}' || c == '\u{202F}' || c == '\u{205F}' || c == '\u{3000}'
}

/// Membership test for a character set.
pub fn char_in_set(set: CharSet, c: char) -> (r: bool)
    ensures
        r == in_set(set, c),
{
    match set {
        CharSet::Whitespace => char_is_whitespace(c),
        CharSet::DoubleQuote => c == '"',
        CharSet::Quotes => c == '"' || c == '\'',
        CharSet::QuotesOrBacktick => c == '"' || c == '\'' || c == '`',
        CharSet::Parens => c == '(' || c == ')',
        CharSet::At => c == '@',
        CharSet::Slash => c == '/',
        CharSet::CloseBracket => c == ']',
        CharSet::Backtick => c == '`',
    }
}

/// Number of leading characters of `s` in `set`.
pub open spec fn lead_count(s: Seq<char>, set: CharSet) -> nat
    decreases s.len(),
{
    if s.len() > 0 && in_set(set, s[0]) {
        1 + lead_count(s.drop_first(), set)
    } else {
        0
    }
}

/// Number of trailing characters of `s` in `set`.
pub open spec fn trail_count(s: Seq<char>, set: CharSet) -> nat
    decreases s.len(),
{
    if s.len() > 0 && in_set(set, s.last()) {
        1 + trail_count(s.drop_last(), set)
    } else {
        0
    }
}

/// `s` with every leading and trailing character of `set` removed, as `str::trim_matches` does
/// (and `str::trim` for whitespace).
pub open spec fn trim_set(s: Seq<char>, set: CharSet) -> Seq<char> {
    let l = lead_count(s, set);
    let t = trail_count(s, set);
    if l + t >= s.len() {
        Seq::empty()
    } else {
        s.subrange(l as int, s.len() - t)
    }
}

proof fn lemma_lead_count(s: Seq<char>, set: CharSet, i: int)
    requires
        0 <= i <= s.len(),
        forall|j: int| 0 <= j < i ==> in_set(set, #[trigger] s[j]),
    ensures
        lead_count(s, set) == i + lead_count(s.subrange(i, s.len() as int), set),
    decreases i,
{
    if i > 0 {
        assert(s.drop_first().subrange(i - 1, s.drop_first().len() as int) =~= s.subrange(i, s.len() as int));
        lemma_lead_count(s.drop_first(), set, i - 1);
    } else {
        assert(s.subrange(0, s.len() as int) =~= s);
    }
}

proof fn lemma_trail_count(s: Seq<char>, set: CharSet, i: int)
    requires
        0 <= i <= s.len(),
        forall|j: int| s.len() - i <= j < s.len() ==> in_set(set, #[trigger] s[j]),
    ensures
        trail_count(s, set) == i + trail_count(s.subrange(0, s.len() - i), set),
    decreases i,
{
    if i > 0 {
        assert(s.drop_last().subrange(0, s.drop_last().len() - (i - 1)) =~= s.subrange(0, s.len() - i));
        lemma_trail_count(s.drop_last(), set, i - 1);
    } else {
        assert(s.subrange(0, s.len() as int) =~= s);
    }
}

/// The bounds `[start, end)` of `s` trimmed of `set` (empty when everything is trimmed).
pub fn trim_bounds(s: &[char], set: CharSet) -> (r: (usize, usize))
    ensures
        r.0 <= r.1 <= s@.len(),
        s@.subrange(r.0 as int, r.1 as int) == trim_set(s@, set),
{
    let n = s.len();
    let mut start: usize = 0;
    while start < n && char_in_set(set, s[start])
        invariant
            start <= n == s@.len(),
            forall|j: int| 0 <= j < start ==> in_set(set, #[trigger] s@[j]),
        decreases n - start,
    {
        start = start + 1;
    }
    proof { lemma_lead_count(s@, set, start as int); }
    if start == n {
        assert(lead_count(s@.subrange(n as int, n as int), set) == 0);
        return (n, n);
    }
    assert(lead_count(s@.subrange(start as int, n as int), set) == 0) by {
        assert(s@.subrange(start as int, n as int)[0] == s@[start as int]);
    }
    let mut end: usize = n;
    while end > start && char_in_set(set, s[end - 1])
        invariant
            start < n == s@.len(),
            start <= end <= n,
            !in_set(set, s@[start as int]),
            forall|j: int| end <= j < n ==> in_set(set, #[trigger] s@[j]),
        decreases end,
    {
        end = end - 1;
    }
    proof { lemma_trail_count(s@, set, (n - end) as int); }
    assert(trail_count(s@.subrange(0, end as int), set) == 0) by {
        assert(s@.subrange(0, end as int).last() == s@[end - 1]);
    }
    (start, end)
}

/// A `String` holding `s` trimmed of `set`.
pub fn trim_to_string(s: &[char], set: CharSet) -> (r: String)
    ensures
        r@ == trim_set(s@, set),
{
    let (a, b) = trim_bounds(s, set);
    string_from_char_range(s, a, b)
}

/// A string trimmed of `set` at both ends (as `str::trim_matches`).
pub fn trim_str(s: &str, set: CharSet) -> (r: String)
    ensures
        r@ == trim_set(s@, set),
{
    let chars = chars_of(s);
    trim_to_string(chars.as_slice(), set)
}

/// Whether `needle` occurs in `hay` (as `str::contains`).
pub fn str_contains(hay: &str, needle: &str) -> (r: bool)
    ensures
        r == contains_seq(hay@, needle@),
{
    let h = chars_of(hay);
    let n = chars_of(needle);
    chars_contain(h.as_slice(), n.as_slice())
}

/// `s` without its leading characters of `set` (as `str::trim_start_matches`).
pub open spec fn trim_start_set(s: Seq<char>, set: CharSet) -> Seq<char> {
    s.subrange(lead_count(s, set) as int, s.len() as int)
}

/// `s` without its trailing characters of `set` (as `str::trim_end_matches`).
pub open spec fn trim_end_set(s: Seq<char>, set: CharSet) -> Seq<char> {
    s.subrange(0, s.len() - trail_count(s, set))
}

proof fn lemma_lead_le(s: Seq<char>, set: CharSet)
    ensures
        lead_count(s, set) <= s.len(),
    decreases s.len(),
{
    if s.len() > 0 && in_set(set, s[0]) {
        lemma_lead_le(s.drop_first(), set);
    }
}

proof fn lemma_trail_le(s: Seq<char>, set: CharSet)
    ensures
        trail_count(s, set) <= s.len(),
    decreases s.len(),
{
    if s.len() > 0 && in_set(set, s.last()) {
        lemma_trail_le(s.drop_last(), set);
    }
}

/// Drop the leading characters of `set`.
pub fn trim_start_chars(s: &[char], set: CharSet) -> (r: Vec<char>)
    ensures
        r@ == trim_start_set(s@, set),
{
    let n = s.len();
    let mut start: usize = 0;
    while start < n && char_in_set(set, s[start])
        invariant
            start <= n == s@.len(),
            forall|j: int| 0 <= j < start ==> in_set(set, #[trigger] s@[j]),
        decreases n - start,
    {
        start = start + 1;
    }
    proof {
        lemma_lead_count(s@, set, start as int);
        if start < n {
            assert(s@.subrange(start as int, n as int)[0] == s@[start as int]);
        }
        assert(lead_count(s@.subrange(start as int, n as int), set) == 0);
    }
    let mut r: Vec<char> = Vec::new();
    let mut i = start;
    while i < n
        invariant
            start <= i <= n == s@.len(),
            r@ == s@.subrange(start as int, i as int),
        decreases n - i,
    {
        r.push(s[i]);
        i = i + 1;
    }
    r
}

/// Drop the trailing characters of `set`.
pub fn trim_end_chars(s: &[char], set: CharSet) -> (r: Vec<char>)
    ensures
        r@ == trim_end_set(s@, set),
{
    let n = s.len();
    let mut end: usize = n;
    while end > 0 && char_in_set(set, s[end - 1])
        invariant
            end <= n == s@.len(),
            forall|j: int| end <= j < n ==> in_set(set, #[trigger] s@[j]),
        decreases end,
    {
        end = end - 1;
    }
    proof {
        lemma_trail_count(s@, set, (n - end) as int);
        if end > 0 {
            assert(s@.subrange(0, end as int).last() == s@[end - 1]);
        }
        assert(trail_count(s@.subrange(0, end as int), set) == 0);
    }
    let mut r: Vec<char> = Vec::new();
    let mut i: usize = 0;
    while i < end
        invariant
            i <= end <= n == s@.len(),
            r@ == s@.subrange(0, i as int),
        decreases end - i,
    {
        r.push(s[i]);
        i = i + 1;
    }
    r
}

/// `s` trimmed of `set` at both ends.
pub fn trim_chars(s: &[char], set: CharSet) -> (r: Vec<char>)
    ensures
        r@ == trim_set(s@, set),
{
    let (a, b) = trim_bounds(s, set);
    let mut r: Vec<char> = Vec::new();
    let mut i = a;
    while i < b
        invariant
            a <= i <= b <= s@.len(),
            r@ == s@.subrange(a as int, i as int),
        decreases b - i,
    {
        r.push(s[i]);
        i = i + 1;
    }
    r
}

/// The first index at which `needle` occurs in `hay` (as `str::find`).
pub open spec fn find_seq(hay: Seq<char>, needle: Seq<char>) -> Option<int> {
    if exists|i: int| occurs_at(hay, needle, i) {
        Some(choose|i: int| occurs_at(hay, needle, i) && forall|j: int| 0 <= j < i ==> !occurs_at(hay, needle, j))
    } else {
        None
    }
}

/// Find the first occurrence of `needle` in `hay`.
pub fn find_chars(hay: &[char], needle: &[char]) -> (r: Option<usize>)
    ensures
        match r {
            Some(i) => find_seq(hay@, needle@) == Some(i as int) && i + needle@.len() <= hay@.len(),
            None => find_seq(hay@, needle@) is None,
        },
{
    let n = hay.len();
    let m = needle.len();
    if m > n {
        assert(forall|i: int| !occurs_at(hay@, needle@, i));
        return None;
    }
    if m == 0 {
        assert(occurs_at(hay@, needle@, 0)) by {
            assert(hay@.subrange(0, 0) =~= needle@);
        }
        let ghost w = choose|k: int| occurs_at(hay@, needle@, k) && forall|j: int| 0 <= j < k ==> !occurs_at(hay@, needle@, j);
        assert(w == 0) by {
            if w > 0 {
                assert(!occurs_at(hay@, needle@, 0));
            }
        }
        return Some(0);
    }
    let mut i: usize = 0;
    while i <= n - m
        invariant
            n == hay@.len(),
            m == needle@.len(),
            0 < m <= n,
            i <= n - m + 1,
            forall|j: int| 0 <= j < i ==> !#[trigger] occurs_at(hay@, needle@, j),
        decreases n - m + 1 - i,
    {
        if matches_at(hay, needle, i) {
            let ghost w = choose|k: int| occurs_at(hay@, needle@, k) && forall|j: int| 0 <= j < k ==> !occurs_at(hay@, needle@, j);
            assert(occurs_at(hay@, needle@, i as int) && forall|j: int| 0 <= j < i ==> !occurs_at(hay@, needle@, j));
            assert(w == i) by {
                if w < i {
                    assert(!occurs_at(hay@, needle@, w));
                } else if w > i {
                    assert(!occurs_at(hay@, needle@, i as int));
                }
            }
            return Some(i);
        }
        i = i + 1;
    }
    assert forall|j: int| !occurs_at(hay@, needle@, j) by {
        if 0 <= j && j + m <= n {
            assert(j < i);
        }
    }
    None
}

/// The first index of a character of `cs` in `s`.
pub open spec fn find_any(s: Seq<char>, cs: Seq<char>) -> Option<int> {
    if exists|i: int| 0 <= i < s.len() && cs.contains(s[i]) {
        Some(choose|i: int| 0 <= i < s.len() && cs.contains(s[i]) && forall|j: int| 0 <= j < i ==> !cs.contains(#[trigger] s[j]))
    } else {
        None
    }
}

/// What `find_any` finds: a character of `cs`, with none before it.
pub proof fn lemma_find_any(s: Seq<char>, cs: Seq<char>)
    ensures
        find_any(s, cs) matches Some(i) ==> 0 <= i < s.len() && cs.contains(s[i])
            && forall|j: int| 0 <= j < i ==> !cs.contains(#[trigger] s[j]),
{
    if exists|i: int| 0 <= i < s.len() && cs.contains(s[i]) {
        let k = choose|i: int| 0 <= i < s.len() && cs.contains(s[i]);
        lemma_first_of_set(s, cs, k);
    }
}

proof fn lemma_first_of_set(s: Seq<char>, cs: Seq<char>, k: int)
    requires
        0 <= k < s.len(),
        cs.contains(s[k]),
    ensures
        exists|i: int| 0 <= i < s.len() && cs.contains(s[i]) && forall|j: int| 0 <= j < i ==> !cs.contains(#[trigger] s[j]),
    decreases k,
{
    if exists|j: int| 0 <= j < k && cs.contains(s[j]) {
        let j = choose|j: int| 0 <= j < k && cs.contains(s[j]);
        lemma_first_of_set(s, cs, j);
    } else {
        assert(forall|j: int| 0 <= j < k ==> !cs.contains(#[trigger] s[j]));
    }
}

/// Find the first character of `cs` in `s`.
pub fn find_any_char(s: &[char], cs: &[char]) -> (r: Option<usize>)
    ensures
        match r {
            Some(i) => find_any(s@, cs@) == Some(i as int) && i < s@.len(),
            None => find_any(s@, cs@) is None,
        },
{
    let mut i: usize = 0;
    while i < s.len()
        invariant
            i <= s@.len(),
            forall|j: int| 0 <= j < i ==> !cs@.contains(#[trigger] s@[j]),
        decreases s@.len() - i,
    {
        let c = s[i];
        let mut k: usize = 0;
        let mut hit = false;
        while k < cs.len()
            invariant
                k <= cs@.len(),
                c == s@[i as int],
                hit == exists|q: int| 0 <= q < k && cs@[q] == c,
            decreases cs@.len() - k,
        {
            if cs[k] == c {
                hit = true;
            }
            k = k + 1;
        }
        if hit {
            let ghost w = choose|q: int| 0 <= q < s@.len() && cs@.contains(s@[q]) && forall|j: int| 0 <= j < q ==> !cs@.contains(#[trigger] s@[j]);
            assert(cs@.contains(s@[i as int]));
            assert(w == i) by {
                if w < i {
                    assert(!cs@.contains(s@[w]));
                } else if w > i {
                    assert(!cs@.contains(s@[i as int]));
                }
            }
            return Some(i);
        }
        i = i + 1;
    }
    None
}

/// The last index of `c` in `s` (as `str::rfind` with a character).
pub open spec fn rfind_char(s: Seq<char>, c: char) -> Option<int>
    decreases s.len(),
{
    if s.len() == 0 {
        None
    } else if s.last() == c {
        Some(s.len() - 1)
    } else {
        rfind_char(s.drop_last(), c)
    }
}

/// Find the last occurrence of `c` in `s`.
pub fn rfind_chars(s: &[char], c: char) -> (r: Option<usize>)
    ensures
        match r {
            Some(i) => rfind_char(s@, c) == Some(i as int) && i < s@.len(),
            None => rfind_char(s@, c) is None,
        },
{
    let mut k: usize = s.len();
    assert(s@.take(k as int) =~= s@);
    while k > 0
        invariant
            k <= s@.len(),
            rfind_char(s@, c) == rfind_char(s@.take(k as int), c),
        decreases k,
    {
        assert(s@.take(k as int).drop_last() =~= s@.take(k - 1));
        if s[k - 1] == c {
            return Some(k - 1);
        }
        k = k - 1;
    }
    None
}

/// The pieces of `s` between occurrences of `sep` (as `str::split` with a character).
pub open spec fn split_char(s: Seq<char>, sep: char) -> Seq<Seq<char>>
    decreases s.len(),
{
    match rfind_char(s, sep) {
        Some(i) => if 0 <= i < s.len() {
            split_char(s.take(i), sep).push(s.subrange(i + 1, s.len() as int))
        } else {
            seq![s]
        },
        None => seq![s],
    }
}

proof fn lemma_rfind_bound(s: Seq<char>, c: char)
    ensures
        rfind_char(s, c) matches Some(i) ==> 0 <= i < s.len() && s[i] == c,
        rfind_char(s, c) matches Some(i) ==> forall|j: int| i < j < s.len() ==> s[j] != c,
        rfind_char(s, c) is None ==> forall|j: int| 0 <= j < s.len() ==> s[j] != c,
    decreases s.len(),
{
    if s.len() > 0 && s.last() != c {
        lemma_rfind_bound(s.drop_last(), c);
        assert forall|j: int| 0 <= j < s.len() - 1 implies s.drop_last()[j] == s[j] by {}
    }
}

/// `str::to_lowercase`: the string in lowercase (by the Unicode `Lowercase` mapping).
pub uninterp spec fn lowercase(s: Seq<char>) -> Seq<char>;

/// A text with `A` to `Z` mapped to `a` to `z` and every other character kept.
pub open spec fn ascii_lowercase(s: Seq<char>) -> Seq<char> {
    s.map_values(|c: char| if 'A' <= c && c <= 'Z' { ((c as u32) + 32) as char } else { c })
}

/// `str::to_lowercase`: the lowercase form of the text, by Unicode case mapping; for a
/// text of ASCII characters that maps `A` to `Z` to `a` to `z` and keeps the rest.
#[verifier::external_body]
pub(crate) fn to_lowercase_text(s: &str) -> (r: String)
    ensures
        r@ == lowercase(s@),
        (forall|i: int| 0 <= i < s@.len() ==> #[trigger] s@[i] <= '\x7f') ==> r@ == ascii_lowercase(s@),
{
    s.to_lowercase()
}

/// `needle` occurs in `hay` at index `i`.
pub open spec fn occurs_at(hay: Seq<char>, needle: Seq<char>, i: int) -> bool {
    0 <= i && i + needle.len() <= hay.len() && hay.subrange(i, i + needle.len()) == needle
}

/// The number of non-overlapping occurrences of a non-empty `needle` in `hay` from index
/// `i` on, found left to right (as `str::matches(..).count()` counts them).
pub open spec fn count_from(hay: Seq<char>, needle: Seq<char>, i: int) -> nat
    decreases hay.len() - i,
{
    if needle.len() == 0 || i < 0 || i + needle.len() > hay.len() {
        0
    } else if occurs_at(hay, needle, i) {
        1 + count_from(hay, needle, i + needle.len())
    } else {
        count_from(hay, needle, i + 1)
    }
}

/// The number of non-overlapping occurrences of `needle` in `hay`.
pub open spec fn count_matches(hay: Seq<char>, needle: Seq<char>) -> nat {
    count_from(hay, needle, 0)
}

proof fn lemma_count_from_bound(hay: Seq<char>, needle: Seq<char>, i: int)
    requires
        0 <= i <= hay.len(),
    ensures
        count_from(hay, needle, i) <= hay.len() - i,
    decreases hay.len() - i,
{
    if needle.len() == 0 || i + needle.len() > hay.len() {
    } else if occurs_at(hay, needle, i) {
        lemma_count_from_bound(hay, needle, i + needle.len());
    } else {
        lemma_count_from_bound(hay, needle, i + 1);
    }
}

/// Whether `needle` occurs in `hay` at index `i`.
pub fn matches_at(hay: &[char], needle: &[char], i: usize) -> (r: bool)
    ensures
        r == occurs_at(hay@, needle@, i as int),
{
    let n = hay.len();
    let m = needle.len();
    if i > n || m > n - i {
        return false;
    }
    let mut j: usize = 0;
    while j < m
        invariant
            n == hay@.len(),
            m == needle@.len(),
            i + m <= n,
            j <= m,
            forall|k: int| 0 <= k < j ==> hay@[i + k] == needle@[k],
        decreases m - j,
    {
        if hay[i + j] != needle[j] {
            assert(hay@.subrange(i as int, i + m)[j as int] != needle@[j as int]);
            return false;
        }
        j = j + 1;
    }
    assert(hay@.subrange(i as int, i + m) =~= needle@);
    true
}

/// Count the non-overlapping occurrences of a non-empty `needle` in `hay`.
pub fn count_occurrences(hay: &[char], needle: &[char]) -> (r: usize)
    requires
        needle@.len() > 0,
    ensures
        r == count_matches(hay@, needle@),
{
    let n = hay.len();
    let m = needle.len();
    if m > n {
        return 0;
    }
    let mut i: usize = 0;
    let mut count: usize = 0;
    while i <= n - m
        invariant
            n == hay@.len(),
            m == needle@.len(),
            0 < m <= n,
            i <= n,
            count <= i,
            count + count_from(hay@, needle@, i as int) == count_matches(hay@, needle@),
        decreases n - i,
    {
        if matches_at(hay, needle, i) {
            count = count + 1;
            i = i + m;
        } else {
            i = i + 1;
        }
    }
    count
}

/// The number of lines `str::lines` yields: one per line feed, plus one for a last line
/// that does not end with a line feed.
pub open spec fn line_count(s: Seq<char>) -> nat {
    count_char(s, '\n') + (if s.len() > 0 && s.last() != '\n' { 1nat } else { 0nat })
}

/// The number of times `c` occurs in `s`.
pub open spec fn count_char(s: Seq<char>, c: char) -> nat
    decreases s.len(),
{
    if s.len() == 0 {
        0
    } else {
        count_char(s.drop_last(), c) + (if s.last() == c { 1nat } else { 0nat })
    }
}

proof fn lemma_count_char_bound(s: Seq<char>, c: char)
    ensures
        count_char(s, c) <= s.len(),
    decreases s.len(),
{
    if s.len() > 0 {
        lemma_count_char_bound(s.drop_last(), c);
    }
}

/// Count the lines of a text as `str::lines().count()` does.
pub fn count_lines(s: &[char]) -> (r: usize)
    ensures
        r == line_count(s@),
{
    let n = s.len();
    let mut i: usize = 0;
    let mut feeds: usize = 0;
    while i < n
        invariant
            n == s@.len(),
            i <= n,
            feeds <= i,
            feeds == count_char(s@.take(i as int), '\n'),
        decreases n - i,
    {
        proof {
            assert(s@.take(i + 1).drop_last() =~= s@.take(i as int));
        }
        if s[i] == '\n' {
            feeds = feeds + 1;
        }
        i = i + 1;
    }
    assert(s@.take(n as int) =~= s@);
    if n > 0 {
        proof { lemma_count_char_bound(s@.drop_last(), '\n'); }
    }
    if n > 0 && s[n - 1] != '\n' {
        feeds + 1
    } else {
        feeds
    }
}

/// `needle` occurs somewhere in `hay`, as `str::contains` tests.
pub open spec fn contains_seq(hay: Seq<char>, needle: Seq<char>) -> bool {
    exists|i: int| occurs_at(hay, needle, i)
}

/// Substring test on characters.
pub fn chars_contain(hay: &[char], needle: &[char]) -> (r: bool)
    ensures
        r == contains_seq(hay@, needle@),
{
    let n = hay.len();
    let m = needle.len();
    if m > n {
        assert forall|i: int| !occurs_at(hay@, needle@, i) by {}
        return false;
    }
    let mut i: usize = 0;
    while i <= n - m
        invariant
            n == hay@.len(),
            m == needle@.len(),
            m <= n,
            i <= n - m + 1,
            forall|k: int| 0 <= k < i ==> !#[trigger] occurs_at(hay@, needle@, k),
        decreases n - m + 1 - i,
    {
        let mut j: usize = 0;
        let mut ok = true;
        while j < m
            invariant
                n == hay@.len(),
                m == needle@.len(),
                i + m <= n,
                j <= m,
                ok == (forall|k: int| 0 <= k < j ==> hay@[i + k] == needle@[k]),
            decreases m - j,
        {
            if hay[i + j] != needle[j] {
                ok = false;
            }
            j = j + 1;
        }
        if ok {
            assert(hay@.subrange(i as int, i + m) =~= needle@);
            assert(occurs_at(hay@, needle@, i as int));
            return true;
        }
        assert(!occurs_at(hay@, needle@, i as int)) by {
            if occurs_at(hay@, needle@, i as int) {
                assert forall|k: int| 0 <= k < m implies hay@[i + k] == needle@[k] by {
                    assert(hay@.subrange(i as int, i + m)[k] == hay@[i + k]);
                }
            }
        }
        i = i + 1;
    }
    assert forall|k: int| !occurs_at(hay@, needle@, k) by {
        if 0 <= k && k < i {
        }
    }
    false
}

/// `s` starts with `p`.
pub open spec fn starts_with_seq(s: Seq<char>, p: Seq<char>) -> bool {
    p.len() <= s.len() && s.take(p.len() as int) == p
}

/// `s` with every occurrence of `from` replaced by `to`, scanning from the left and
/// taking matches that do not overlap (as `str::replace` with a non-empty pattern).
pub open spec fn replace_all(s: Seq<char>, from: Seq<char>, to: Seq<char>) -> Seq<char>
    decreases s.len(),
{
    if s.len() == 0 || from.len() == 0 {
        s
    } else if starts_with_seq(s, from) {
        to + replace_all(s.skip(from.len() as int), from, to)
    } else {
        seq![s[0]] + replace_all(s.skip(1), from, to)
    }
}

/// Replace every occurrence of a non-empty `from` in `s` by `to`.
pub fn replace_str(s: &str, from: &str, to: &str) -> (r: String)
    requires
        from@.len() > 0,
    ensures
        r@ == replace_all(s@, from@, to@),
{
    let sc = chars_of(s);
    let fc = chars_of(from);
    let tc = chars_of(to);
    let n = sc.len();
    let m = fc.len();
    let mut out: Vec<char> = Vec::new();
    let mut i: usize = 0;
    assert(sc@.skip(0) =~= sc@);
    while i < n
        invariant
            n == sc@.len(),
            m == fc@.len(),
            m > 0,
            sc@ == s@,
            fc@ == from@,
            tc@ == to@,
            i <= n,
            out@ + replace_all(sc@.skip(i as int), fc@, tc@) == replace_all(sc@, fc@, tc@),
        decreases n - i,
    {
        let ghost rest = sc@.skip(i as int);
        let ghost before = out@;
        if matches_at(sc.as_slice(), fc.as_slice(), i) {
            assert(rest.take(m as int) =~= sc@.subrange(i as int, i + m));
            assert(starts_with_seq(rest, fc@));
            let mut j: usize = 0;
            while j < tc.len()
                invariant
                    j <= tc@.len(),
                    out@ == before + tc@.take(j as int),
                decreases tc@.len() - j,
            {
                out.push(tc[j]);
                assert(tc@.take(j + 1) =~= tc@.take(j as int).push(tc@[j as int]));
                j = j + 1;
            }
            assert(tc@.take(tc@.len() as int) =~= tc@);
            assert(rest.skip(m as int) =~= sc@.skip(i + m));
            assert(before + replace_all(rest, fc@, tc@) =~= out@ + replace_all(sc@.skip(i + m), fc@, tc@));
            i = i + m;
        } else {
            assert(!starts_with_seq(rest, fc@)) by {
                if starts_with_seq(rest, fc@) {
                    assert(sc@.subrange(i as int, i + m) =~= rest.take(m as int));
                }
            }
            out.push(sc[i]);
            assert(rest.skip(1) =~= sc@.skip(i + 1));
            assert(before + replace_all(rest, fc@, tc@) =~= out@ + replace_all(sc@.skip(i + 1), fc@, tc@));
            i = i + 1;
        }
    }
    assert(sc@.skip(n as int) =~= Seq::<char>::empty());
    assert(out@ + Seq::<char>::empty() =~= out@);
    string_from_chars(out.as_slice())
}

/// `s` without any number of leading copies of a non-empty `p` (as
/// `str::trim_start_matches` with a string pattern).
pub open spec fn trim_start_seq(s: Seq<char>, p: Seq<char>) -> Seq<char>
    decreases s.len(),
{
    if p.len() > 0 && starts_with_seq(s, p) { trim_start_seq(s.skip(p.len() as int), p) } else { s }
}

/// Drop the leading copies of a non-empty pattern.
pub fn trim_start_pattern(s: &[char], p: &[char]) -> (r: Vec<char>)
    ensures
        r@ == trim_start_seq(s@, p@),
{
    let n = s.len();
    let m = p.len();
    let mut i: usize = 0;
    assert(s@.skip(0) =~= s@);
    while m > 0 && i < n && matches_at(s, p, i)
        invariant
            n == s@.len(),
            m == p@.len(),
            i <= n,
            trim_start_seq(s@.skip(i as int), p@) == trim_start_seq(s@, p@),
        decreases n - i,
    {
        let ghost rest = s@.skip(i as int);
        assert(rest.take(m as int) =~= s@.subrange(i as int, i + m));
        assert(rest.skip(m as int) =~= s@.skip(i + m));
        i = i + m;
    }
    let ghost rest = s@.skip(i as int);
    assert(!(m > 0 && starts_with_seq(rest, p@))) by {
        if m > 0 && starts_with_seq(rest, p@) && i < n {
            assert(s@.subrange(i as int, i + m) =~= rest.take(m as int));
        }
        if i == n {
            assert(rest.len() == 0);
        }
    }
    let out = vstd::slice::slice_subrange(s, i, n);
    assert(out@ =~= rest);
    vstd::slice::slice_to_vec(out)
}

/// The parts joined with `sep` between each two (as `slice::join`).
pub open spec fn join_with(parts: Seq<Seq<char>>, sep: Seq<char>) -> Seq<char>
    decreases parts.len(),
{
    if parts.len() == 0 {
        Seq::empty()
    } else if parts.len() == 1 {
        parts[0]
    } else {
        join_with(parts.drop_last(), sep) + sep + parts.last()
    }
}

/// Join texts with a separator.
pub fn join_strings(parts: &Vec<String>, sep: &str) -> (r: String)
    ensures
        r@ == join_with(crate::shared::texts(parts@), sep@),
{
    let sc = chars_of(sep);
    let mut out: Vec<char> = Vec::new();
    let mut i: usize = 0;
    while i < parts.len()
        invariant
            i <= parts@.len(),
            sc@ == sep@,
            out@ == join_with(crate::shared::texts(parts@.take(i as int)), sep@),
        decreases parts@.len() - i,
    {
        let ghost before = out@;
        let ghost prev = crate::shared::texts(parts@.take(i as int));
        let ghost next = crate::shared::texts(parts@.take(i + 1));
        assert(next.drop_last() =~= prev);
        assert(next.last() == parts@[i as int]@);
        if i > 0 {
            let mut j: usize = 0;
            while j < sc.len()
                invariant
                    j <= sc@.len(),
                    out@ == before + sc@.take(j as int),
                decreases sc@.len() - j,
            {
                out.push(sc[j]);
                assert(sc@.take(j + 1) =~= sc@.take(j as int).push(sc@[j as int]));
                j = j + 1;
            }
            assert(sc@.take(sc@.len() as int) =~= sc@);
        }
        let ghost mid = out@;
        let pc = chars_of(parts[i].as_str());
        let mut j: usize = 0;
        while j < pc.len()
            invariant
                j <= pc@.len(),
                out@ == mid + pc@.take(j as int),
            decreases pc@.len() - j,
        {
            out.push(pc[j]);
            assert(pc@.take(j + 1) =~= pc@.take(j as int).push(pc@[j as int]));
            j = j + 1;
        }
        assert(pc@.take(pc@.len() as int) =~= pc@);
        if i == 0 {
            assert(next.len() == 1);
            assert(out@ =~= join_with(next, sep@));
        } else {
            assert(out@ =~= join_with(next, sep@));
        }
        i = i + 1;
    }
    assert(parts@.take(parts@.len() as int) =~= parts@);
    string_from_chars(out.as_slice())
}

/// `s` ends with `p`.
pub open spec fn ends_with_seq(s: Seq<char>, p: Seq<char>) -> bool {
    p.len() <= s.len() && s.skip(s.len() - p.len()) == p
}

/// Prefix test on characters.
pub fn chars_start_with(s: &[char], p: &[char]) -> (r: bool)
    ensures
        r == starts_with_seq(s@, p@),
{
    if p.len() > s.len() {
        return false;
    }
    let mut j: usize = 0;
    while j < p.len()
        invariant
            p@.len() <= s@.len(),
            j <= p@.len(),
            forall|k: int| 0 <= k < j ==> s@[k] == p@[k],
        decreases p@.len() - j,
    {
        if s[j] != p[j] {
            assert(s@.take(p@.len() as int)[j as int] != p@[j as int]);
            return false;
        }
        j = j + 1;
    }
    assert(s@.take(p@.len() as int) =~= p@);
    true
}

/// Suffix test on characters.
pub fn chars_end_with(s: &[char], p: &[char]) -> (r: bool)
    ensures
        r == ends_with_seq(s@, p@),
{
    if p.len() > s.len() {
        return false;
    }
    let off = s.len() - p.len();
    let mut j: usize = 0;
    while j < p.len()
        invariant
            p@.len() <= s@.len(),
            off == s@.len() - p@.len(),
            s@.len() <= usize::MAX,
            j <= p@.len(),
            forall|k: int| 0 <= k < j ==> s@[off + k] == p@[k],
        decreases p@.len() - j,
    {
        if s[off + j] != p[j] {
            assert(s@.skip(off as int)[j as int] != p@[j as int]);
            return false;
        }
        j = j + 1;
    }
    assert(s@.skip(off as int) =~= p@);
    true
}

/// Whether two character slices are equal.
pub fn chars_eq(a: &[char], b: &[char]) -> (r: bool)
    ensures
        r == (a@ == b@),
{
    if a.len() != b.len() {
        return false;
    }
    let mut i: usize = 0;
    while i < a.len()
        invariant
            a@.len() == b@.len(),
            i <= a@.len(),
            forall|k: int| 0 <= k < i ==> a@[k] == b@[k],
        decreases a@.len() - i,
    {
        if a[i] != b[i] {
            return false;
        }
        i = i + 1;
    }
    assert(a@ =~= b@);
    true
}


// ---------------------------------------------------------------------------
// Text budgets
// ---------------------------------------------------------------------------

/// Cut a text to at most `max_bytes` bytes on a character boundary, reporting whether
/// anything was cut.
pub fn truncate_text(raw: &str, max_bytes: usize) -> (r: (String, bool))
    ensures
        string_bytes(r.0@) == capped_bytes(raw.spec_bytes(), max_bytes as int),
        r.1 == (raw.spec_bytes().len() > max_bytes),
{
    let n = raw.as_bytes().len();
    (capped_text(raw, max_bytes), n > max_bytes)
}

/// A byte budget shared by several pieces of text.
#[derive(Debug, Clone, Copy, PartialEq, Eq, Structural)]
pub struct TextBudget {
    pub limit: usize,
    pub used: usize,
    pub exceeded: bool,
}

/// The bytes a budget still has.
pub open spec fn budget_remaining(b: TextBudget) -> int {
    if b.used <= b.limit { b.limit - b.used } else { 0 }
}

/// Whether `n` more bytes fit in a budget.
pub open spec fn budget_fits(b: TextBudget, n: int) -> bool {
    b.used <= b.limit && n <= b.limit - b.used
}

/// A budget after trying to spend `n` bytes: spent if they fit, else marked exceeded.
pub open spec fn budget_spend(b: TextBudget, n: int) -> TextBudget {
    if budget_fits(b, n) {
        TextBudget { limit: b.limit, used: (b.used + n) as usize, exceeded: b.exceeded }
    } else {
        TextBudget { limit: b.limit, used: b.used, exceeded: true }
    }
}

impl TextBudget {
    /// A fresh budget of `limit` bytes.
    pub fn new(limit: usize) -> (r: Self)
        ensures
            r.limit == limit && r.used == 0 && !r.exceeded,
    {
        TextBudget { limit, used: 0, exceeded: false }
    }

    /// The bytes still available.
    pub fn remaining(&self) -> (r: usize)
        ensures
            r == budget_remaining(*self),
    {
        if self.used <= self.limit { self.limit - self.used } else { 0 }
    }

    /// Spend `n` bytes if they fit; otherwise mark the budget as exceeded.
    pub fn try_spend(&mut self, n: usize) -> (r: bool)
        ensures
            r == budget_fits(*old(self), n as int),
            *final(self) == budget_spend(*old(self), n as int),
    {
        if self.used <= self.limit && n <= self.limit - self.used {
            self.used = self.used + n;
            true
        } else {
            self.exceeded = true;
            false
        }
    }
}

/// Spending from a budget never takes it past its limit: bytes that fit are spent and
/// leave that much less; bytes that do not fit leave it as it was, marked exceeded.
pub proof fn law_budget_never_overspends(b: TextBudget, n: usize)
    requires
        b.used <= b.limit,
    ensures
        budget_spend(b, n as int).used <= budget_spend(b, n as int).limit,
        budget_spend(b, n as int).limit == b.limit,
        budget_fits(b, n as int) ==> budget_remaining(budget_spend(b, n as int)) == budget_remaining(b) - n,
        !budget_fits(b, n as int) ==> budget_remaining(budget_spend(b, n as int)) == budget_remaining(b)
            && budget_spend(b, n as int).exceeded,
{
}

} // verus!
