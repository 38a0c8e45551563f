//! Conversion between (line, character) positions and byte offsets of a source text.
//! Lines are separated by `\n`; a character is a byte offset into its line.
use vstd::prelude::*;
use vstd::string::*;

use crate::shared::{Position, Range};

verus! {

/// The first index at or after `from` that holds a line break.
pub open spec fn newline_from(s: Seq<u8>, from: int) -> Option<int>
    decreases s.len() - from,
{
    if from < 0 || from >= s.len() {
        None
    } else if s[from] == 10u8 {
        Some(from)
    } else {
        newline_from(s, from + 1)
    }
}

/// Where line `n` starts: line 0 at offset 0, each next line just after the line break
/// that ends the one before; `None` when the text has fewer lines.
pub open spec fn line_start(s: Seq<u8>, n: nat) -> Option<int>
    decreases n,
{
    if n == 0 {
        Some(0)
    } else {
        match line_start(s, (n - 1) as nat) {
            Some(st) => match newline_from(s, st) {
                Some(i) => Some(i + 1),
                None => None,
            },
            None => None,
        }
    }
}

/// Where the line that starts at `st` ends: at its line break, or at the end of the text.
pub open spec fn line_end(s: Seq<u8>, st: int) -> int {
    match newline_from(s, st) {
        Some(i) => i,
        None => s.len() as int,
    }
}

/// The byte offset of a position: the start of its line plus its character, when that
/// is no further than the end of the line and is a character boundary.
pub open spec fn byte_of_position(s: Seq<u8>, p: Position) -> Option<int> {
    match line_start(s, p.line as nat) {
        Some(st) => {
            let b = st + p.character;
            if b <= line_end(s, st) && vstd::utf8::is_char_boundary(s, b) { Some(b) } else { None }
        },
        None => None,
    }
}

/// The number of line breaks in a text.
pub open spec fn count_newlines(t: Seq<u8>) -> nat
    decreases t.len(),
{
    if t.len() == 0 {
        0
    } else {
        count_newlines(t.drop_last()) + if t.last() == 10u8 { 1nat } else { 0nat }
    }
}

/// The index of the last line break in a text.
pub open spec fn last_newline(t: Seq<u8>) -> Option<int>
    decreases t.len(),
{
    if t.len() == 0 {
        None
    } else if t.last() == 10u8 {
        Some(t.len() - 1)
    } else {
        last_newline(t.drop_last())
    }
}

/// The position of a byte offset (cut to the text's length): the number of line breaks
/// before it, and its distance from the start of its line, each as a `u32`.
pub open spec fn position_of_byte(s: Seq<u8>, b: int) -> Position {
    let k = if b < s.len() { b } else { s.len() as int };
    let before = s.take(k);
    let character = match last_newline(before) {
        Some(j) => k - j - 1,
        None => k,
    };
    Position { line: count_newlines(before) as u32, character: character as u32 }
}

proof fn lemma_newline_from(s: Seq<u8>, from: int)
    requires
        0 <= from,
    ensures
        match newline_from(s, from) {
            Some(i) => from <= i < s.len() && s[i] == 10u8
                && forall|j: int| from <= j < i ==> s[j] != 10u8,
            None => forall|j: int| from <= j < s.len() ==> s[j] != 10u8,
        },
    decreases s.len() - from,
{
    if from < s.len() && s[from] != 10u8 {
        lemma_newline_from(s, from + 1);
    }
}

proof fn lemma_line_start_none(s: Seq<u8>, k: nat, m: nat)
    requires
        k <= m,
        line_start(s, k) is None,
    ensures
        line_start(s, m) is None,
    decreases m - k,
{
    if k < m {
        lemma_line_start_none(s, k, (m - 1) as nat);
    }
}

proof fn lemma_line_start_bounds(s: Seq<u8>, n: nat)
    ensures
        line_start(s, n) matches Some(st) ==> 0 <= st <= s.len(),
    decreases n,
{
    if n > 0 {
        lemma_line_start_bounds(s, (n - 1) as nat);
        if let Some(st) = line_start(s, (n - 1) as nat) {
            lemma_newline_from(s, st);
        }
    }
}

proof fn lemma_no_break_between(s: Seq<u8>, st: int, b: int)
    requires
        0 <= st <= b <= line_end(s, st),
        b <= s.len(),
    ensures
        count_newlines(s.take(b)) == count_newlines(s.take(st)),
        last_newline(s.take(b)) == last_newline(s.take(st)),
    decreases b - st,
{
    if b > st {
        lemma_no_break_between(s, st, b - 1);
        lemma_newline_from(s, st);
        assert(s.take(b).drop_last() =~= s.take(b - 1));
        assert(s[b - 1] != 10u8);
    }
}

proof fn lemma_line_start_counts(s: Seq<u8>, n: nat)
    ensures
        line_start(s, n) matches Some(st) ==> {
            &&& 0 <= st <= s.len()
            &&& count_newlines(s.take(st)) == n
            &&& last_newline(s.take(st)) == (if n == 0 { None::<int> } else { Some(st - 1) })
        },
    decreases n,
{
    if n == 0 {
        assert(s.take(0) =~= Seq::<u8>::empty());
    } else {
        lemma_line_start_counts(s, (n - 1) as nat);
        if let Some(st0) = line_start(s, (n - 1) as nat) {
            lemma_newline_from(s, st0);
            if let Some(i) = newline_from(s, st0) {
                lemma_no_break_between(s, st0, i);
                assert(s.take(i + 1).drop_last() =~= s.take(i));
            }
        }
    }
}

/// Converting a position to a byte offset and back gives the position again: whenever
/// `position_to_byte` finds an offset for a position, `byte_to_position` of that offset
/// is the same position.
pub proof fn law_position_round_trip(s: Seq<u8>, p: Position)
    requires
        byte_of_position(s, p) is Some,
    ensures
        position_of_byte(s, byte_of_position(s, p).unwrap()) == p,
{
    lemma_line_start_counts(s, p.line as nat);
    let st = line_start(s, p.line as nat).unwrap();
    let b = byte_of_position(s, p).unwrap();
    lemma_newline_from(s, st);
    lemma_no_break_between(s, st, b);
}

fn find_newline(bytes: &[u8], from: usize) -> (r: Option<usize>)
    ensures
        match r {
            Some(i) => newline_from(bytes@, from as int) == Some(i as int),
            None => newline_from(bytes@, from as int) is None,
        },
{
    let mut j = from;
    while j < bytes.len()
        invariant
            from <= j,
            newline_from(bytes@, from as int) == newline_from(bytes@, j as int),
        decreases bytes@.len() - j,
    {
        if bytes[j] == 10u8 {
            return Some(j);
        }
        j = j + 1;
    }
    None
}

/// The byte offset of a position in a source text: its line by line breaks, its
/// character as a byte offset into that line; `None` past the end of the line or of the
/// text, or inside a character.
pub fn position_to_byte(source: &str, p: Position) -> (r: Option<usize>)
    ensures
        match r {
            Some(b) => byte_of_position(source.spec_bytes(), p) == Some(b as int),
            None => byte_of_position(source.spec_bytes(), p) is None,
        },
{
    let bytes = source.as_bytes();
    let ghost s = source.spec_bytes();
    let n = bytes.len();
    let mut start: usize = 0;
    let mut l: u32 = 0;
    while l < p.line
        invariant
            bytes@ == s,
            s == source.spec_bytes(),
            n == s.len(),
            l <= p.line,
            line_start(s, l as nat) == Some(start as int),
            start <= s.len(),
        decreases p.line - l,
    {
        match find_newline(bytes, start) {
            Some(i) => {
                proof { lemma_newline_from(s, start as int); }
                start = i + 1;
            },
            None => {
                proof {
                    assert(line_start(s, (l + 1) as nat) is None);
                    lemma_line_start_none(s, (l + 1) as nat, p.line as nat);
                }
                return None;
            },
        }
        l = l + 1;
    }
    let line_end = match find_newline(bytes, start) {
        Some(i) => i,
        None => bytes.len(),
    };
    let b = match start.checked_add(p.character as usize) {
        Some(b) => b,
        None => return None,
    };
    if b <= line_end && source.is_char_boundary(b) {
        Some(b)
    } else {
        None
    }
}

/// The position of a byte offset in a source text (an offset past the end counts as the
/// end): its line, counted by line breaks, and its byte offset in that line.
pub fn byte_to_position(source: &str, b: usize) -> (r: Position)
    ensures
        r == position_of_byte(source.spec_bytes(), b as int),
{
    let bytes = source.as_bytes();
    let ghost s = source.spec_bytes();
    let k = if b < bytes.len() { b } else { bytes.len() };
    let mut count: usize = 0;
    let mut last: Option<usize> = None;
    let mut i: usize = 0;
    assert(s.take(0) =~= Seq::<u8>::empty());
    while i < k
        invariant
            bytes@ == s,
            i <= k <= s.len(),
            count as nat == count_newlines(s.take(i as int)),
            count <= i,
            match last {
                Some(j) => last_newline(s.take(i as int)) == Some(j as int) && j < i,
                None => last_newline(s.take(i as int)) is None,
            },
        decreases k - i,
    {
        assert(s.take(i + 1).drop_last() =~= s.take(i as int));
        if bytes[i] == 10u8 {
            count = count + 1;
            last = Some(i);
        }
        i = i + 1;
    }
    let character: usize = match last {
        Some(j) => k - j - 1,
        None => k,
    };
    #[verifier::truncate]
    let line = count as u32;
    #[verifier::truncate]
    let ch = character as u32;
    Position { line, character: ch }
}

/// The byte offsets of a range, when both ends are positions of the text and the start
/// comes no later than the end.
pub fn range_to_bytes(source: &str, r: Range) -> (res: Option<(usize, usize)>)
    ensures
        match res {
            Some((a, b)) => byte_of_position(source.spec_bytes(), r.start) == Some(a as int)
                && byte_of_position(source.spec_bytes(), r.end) == Some(b as int) && a <= b,
            None => match (byte_of_position(source.spec_bytes(), r.start), byte_of_position(source.spec_bytes(), r.end)) {
                (Some(a), Some(b)) => a > b,
                _ => true,
            },
        },
{
    match (position_to_byte(source, r.start), position_to_byte(source, r.end)) {
        (Some(a), Some(b)) => if a <= b { Some((a, b)) } else { None },
        _ => None,
    }
}

} // verus!
