//! Feeding strings (as `str::hash` does) and integers (as eight little-endian bytes) to
//! `DefaultHasher`, and the hexadecimal digests built from them.
use vstd::prelude::*;
use vstd::std_specs::hash::DefaultHasherAdditionalSpecFns;
use vstd::string::*;

use std::collections::hash_map::DefaultHasher;
use std::hash::Hasher;

use crate::text::{hex, hex_digit, u64_to_hex};

verus! {

/// The writes `str::hash` makes: the UTF-8 bytes, then the byte `0xff`.
pub open spec fn str_writes(s: Seq<char>) -> Seq<Seq<u8>> {
    seq![vstd::utf8::encode_utf8(s), seq![0xffu8]]
}

/// The eight bytes of `x`, least significant first when `little`, else most
/// significant first.
pub open spec fn u64_bytes(x: u64, little: bool) -> Seq<u8> {
    Seq::new(8, |i: int| {
        let k = if little { i } else { 7 - i };
        ((x as nat / vstd::arithmetic::power2::pow2((8 * k) as nat)) % 256) as u8
    })
}

/// The eight bytes of `x`, least significant first (`u64::to_le_bytes`), computed by
/// shifts.
fn u64_le_bytes(x: u64) -> (r: Vec<u8>)
    ensures
        r@ == u64_bytes(x, true),
{
    let mut r: Vec<u8> = Vec::new();
    let mut i: u64 = 0;
    while i < 8
        invariant
            i <= 8,
            r@.len() == i,
            forall|j: int| 0 <= j < i ==> r@[j] == #[trigger] u64_bytes(x, true)[j],
        decreases 8 - i,
    {
        let sh: u64 = 8 * i;
        let y = x >> sh;
        proof {
            vstd::bits::lemma_u64_shr_is_div(x, sh);
        }
        let low = y & 0xff;
        assert(low == y % 256) by (bit_vector)
            requires
                low == y & 0xff,
        ;
        r.push(low as u8);
        i = i + 1;
    }
    assert(r@ =~= u64_bytes(x, true));
    r
}

/// Feed a string to the hasher as `str::hash` does.
pub fn hash_str(h: &mut DefaultHasher, s: &str)
    ensures
        final(h)@ == old(h)@ + str_writes(s@),
{
    h.write(s.as_bytes());
    let ff: [u8; 1] = [0xffu8];
    h.write(&ff);
    assert(ff@ =~= seq![0xffu8]);
    assert(old(h)@.push(s.spec_bytes()).push(ff@) =~= old(h)@ + str_writes(s@));
}

/// Feed a `u64` to the hasher as its eight bytes, least significant first: what
/// `u64::hash` writes on a little-endian machine, and the same bytes on every machine.
pub fn hash_u64(h: &mut DefaultHasher, x: u64)
    ensures
        final(h)@ == old(h)@.push(u64_bytes(x, true)),
{
    let bytes = u64_le_bytes(x);
    h.write(bytes.as_slice());
}

/// The hexadecimal digest of everything written to a hasher.
pub open spec fn digest(writes: Seq<Seq<u8>>) -> Seq<char> {
    hex(DefaultHasher::spec_finish(writes) as nat)
}

/// Finish a hasher and render the digest in lowercase hexadecimal.
pub fn finish_hex(h: &DefaultHasher) -> (r: String)
    ensures
        r@ == digest(h@),
{
    u64_to_hex(h.finish())
}

} // verus!

verus! {

/// Whether a character is a lowercase hexadecimal digit.
pub open spec fn is_hex_char(c: char) -> bool {
    ('0' <= c && c <= '9') || ('a' <= c && c <= 'f')
}

/// `16` to the power `k`.
pub open spec fn pow16(k: nat) -> nat
    decreases k,
{
    if k == 0 { 1 } else { 16 * pow16((k - 1) as nat) }
}

proof fn lemma_hex_shape(n: nat, k: nat)
    requires
        k >= 1,
        n < pow16(k),
    ensures
        1 <= hex(n).len() <= k,
        forall|i: int| 0 <= i < hex(n).len() ==> is_hex_char(#[trigger] hex(n)[i]),
    decreases k,
{
    if n < 16 {
        assert(hex(n) =~= seq![hex_digit(n)]);
    } else {
        let p = pow16((k - 1) as nat);
        assert(k >= 2) by {
            if k == 1 {
                assert(pow16(0) == 1);
            }
        }
        assert(n / 16 < p) by (nonlinear_arith)
            requires
                n < 16 * p,
        ;
        lemma_hex_shape(n / 16, (k - 1) as nat);
        let h = hex(n / 16).push(hex_digit(n % 16));
        assert(hex(n) == h);
        assert forall|i: int| 0 <= i < h.len() implies is_hex_char(#[trigger] h[i]) by {
            if i < h.len() - 1 {
                assert(h[i] == hex(n / 16)[i]);
            }
        }
    }
}

/// A digest is between one and sixteen lowercase hexadecimal digits: the 64-bit hash
/// value written in base 16 without leading zeros.
pub proof fn law_digest_is_short_hex(writes: Seq<Seq<u8>>)
    ensures
        1 <= digest(writes).len() <= 16,
        forall|i: int| 0 <= i < digest(writes).len() ==> is_hex_char(#[trigger] digest(writes)[i]),
{
    let n = DefaultHasher::spec_finish(writes);
    assert(pow16(16) == 0x1_0000_0000_0000_0000) by {
        reveal_with_fuel(pow16, 17);
    }
    lemma_hex_shape(n as nat, 16);
}

} // verus!
