//! Structural fingerprints of node-kind sequences.
use vstd::prelude::*;

use std::collections::hash_map::DefaultHasher;

use crate::hashing::{digest, finish_hex, hash_str, str_writes};
use crate::syntax::text_in;

verus! {

/// Node kinds that count as identifiers.
pub open spec fn identifier_kinds() -> Seq<&'static str> {
    seq!["identifier", "property_identifier", "shorthand_property_identifier", "type_identifier"]
}

/// Node kinds that count as literals.
pub open spec fn literal_kinds() -> Seq<&'static str> {
    seq![
        "string", "number", "template_string", "true", "false", "null", "string_literal",
        "integer", "float", "boolean"
    ]
}

/// The kind a fingerprint records for `kind`: `IDENT` for identifiers and `LITERAL` for
/// literals when those are normalised, else the kind itself.
pub open spec fn normalized_kind(kind: Seq<char>, normalize_identifiers: bool, normalize_literals: bool) -> Seq<char> {
    if normalize_identifiers && text_in(kind, identifier_kinds()) {
        "IDENT"@
    } else if normalize_literals && text_in(kind, literal_kinds()) {
        "LITERAL"@
    } else {
        kind
    }
}

/// The writes the fingerprint of `kinds` feeds the hasher: each normalised kind as
/// `str::hash` writes it, in order.
pub open spec fn fingerprint_writes(kinds: Seq<Seq<char>>, ni: bool, nl: bool) -> Seq<Seq<u8>>
    decreases kinds.len(),
{
    if kinds.len() == 0 {
        Seq::empty()
    } else {
        fingerprint_writes(kinds.drop_last(), ni, nl) + str_writes(normalized_kind(kinds.last(), ni, nl))
    }
}

/// The texts of a slice of string slices.
pub open spec fn kind_texts(kinds: Seq<&str>) -> Seq<Seq<char>> {
    kinds.map_values(|k: &str| k@)
}

/// The normalised kinds of a sequence.
pub open spec fn normalized_kinds(kinds: Seq<Seq<char>>, ni: bool, nl: bool) -> Seq<Seq<char>> {
    kinds.map_values(|k: Seq<char>| normalized_kind(k, ni, nl))
}

/// Whether a node kind counts as an identifier.
pub fn is_identifier_kind(kind: &str) -> (r: bool)
    ensures
        r == text_in(kind@, identifier_kinds()),
{
    let ks: &[&str] = &["identifier", "property_identifier", "shorthand_property_identifier", "type_identifier"];
    assert(ks@ =~= identifier_kinds());
    crate::syntax::str_in(kind, ks)
}

/// Whether a node kind counts as a literal.
pub fn is_literal_kind(kind: &str) -> (r: bool)
    ensures
        r == text_in(kind@, literal_kinds()),
{
    let ks: &[&str] = &[
        "string", "number", "template_string", "true", "false", "null", "string_literal",
        "integer", "float", "boolean",
    ];
    assert(ks@ =~= literal_kinds());
    crate::syntax::str_in(kind, ks)
}

/// The structural fingerprint of a sequence of node kinds: the lowercase hexadecimal
/// `DefaultHasher` digest of the kinds, optionally with identifier and literal kinds
/// normalised.
pub fn fingerprint(node_kinds: &[&str], normalize_identifiers: bool, normalize_literals: bool) -> (r: String)
    ensures
        r@ == digest(fingerprint_writes(kind_texts(node_kinds@), normalize_identifiers, normalize_literals)),
{
    let mut hasher = DefaultHasher::new();
    let n = node_kinds.len();
    let mut i: usize = 0;
    while i < n
        invariant
            n == node_kinds@.len(),
            i <= n,
            hasher@ == fingerprint_writes(kind_texts(node_kinds@.take(i as int)), normalize_identifiers, normalize_literals),
        decreases n - i,
    {
        let kind = node_kinds[i];
        let normalized: &str = if normalize_identifiers && is_identifier_kind(kind) {
            "IDENT"
        } else if normalize_literals && is_literal_kind(kind) {
            "LITERAL"
        } else {
            kind
        };
        hash_str(&mut hasher, normalized);
        proof {
            let pre = kind_texts(node_kinds@.take(i as int));
            let post = kind_texts(node_kinds@.take(i + 1));
            assert(post.drop_last() =~= pre);
            assert(post.last() == kind@);
        }
        i = i + 1;
    }
    assert(node_kinds@.take(n as int) =~= node_kinds@);
    finish_hex(&hasher)
}

/// The fingerprint writes depend on the kinds only through their normalised forms.
proof fn lemma_writes_normalized(a: Seq<Seq<char>>, b: Seq<Seq<char>>, ni: bool, nl: bool)
    requires
        normalized_kinds(a, ni, nl) == normalized_kinds(b, ni, nl),
    ensures
        fingerprint_writes(a, ni, nl) == fingerprint_writes(b, ni, nl),
    decreases a.len(),
{
    assert(a.len() == normalized_kinds(a, ni, nl).len());
    if a.len() > 0 {
        assert(normalized_kinds(a.drop_last(), ni, nl) =~= normalized_kinds(a, ni, nl).drop_last());
        assert(normalized_kinds(b.drop_last(), ni, nl) =~= normalized_kinds(b, ni, nl).drop_last());
        assert(normalized_kind(a.last(), ni, nl) == normalized_kinds(a, ni, nl).last());
        assert(normalized_kind(b.last(), ni, nl) == normalized_kinds(b, ni, nl).last());
        lemma_writes_normalized(a.drop_last(), b.drop_last(), ni, nl);
    }
}

/// Two kind sequences that agree after normalisation have the same fingerprint: with
/// identifier normalisation on, renaming identifiers does not change it, and with literal
/// normalisation on, changing literals does not.
pub proof fn fingerprint_depends_only_on_normalized_kinds(a: Seq<&str>, b: Seq<&str>, ni: bool, nl: bool)
    requires
        normalized_kinds(kind_texts(a), ni, nl) == normalized_kinds(kind_texts(b), ni, nl),
    ensures
        digest(fingerprint_writes(kind_texts(a), ni, nl)) == digest(fingerprint_writes(kind_texts(b), ni, nl)),
{
    lemma_writes_normalized(kind_texts(a), kind_texts(b), ni, nl);
}

/// Equal kind sequences have equal fingerprints, whatever the options.
pub proof fn fingerprint_deterministic(a: Seq<&str>, b: Seq<&str>, ni: bool, nl: bool)
    requires
        kind_texts(a) == kind_texts(b),
    ensures
        digest(fingerprint_writes(kind_texts(a), ni, nl)) == digest(fingerprint_writes(kind_texts(b), ni, nl)),
{
}

/// Normalising is the same as fingerprinting the normalised kinds with no normalisation:
/// the fingerprint of `kinds` with the options equals the fingerprint, with both options
/// off, of the kinds with identifiers replaced by `IDENT` and literals by `LITERAL`.
pub proof fn law_fingerprint_of_normalized_kinds(kinds: Seq<Seq<char>>, ni: bool, nl: bool)
    ensures
        fingerprint_writes(kinds, ni, nl) == fingerprint_writes(normalized_kinds(kinds, ni, nl), false, false),
        digest(fingerprint_writes(kinds, ni, nl)) == digest(fingerprint_writes(normalized_kinds(kinds, ni, nl), false, false)),
    decreases kinds.len(),
{
    let nk = normalized_kinds(kinds, ni, nl);
    if kinds.len() > 0 {
        law_fingerprint_of_normalized_kinds(kinds.drop_last(), ni, nl);
        assert(nk.drop_last() =~= normalized_kinds(kinds.drop_last(), ni, nl));
        assert(nk.last() == normalized_kind(kinds.last(), ni, nl));
        assert(normalized_kind(nk.last(), false, false) == nk.last());
    } else {
        assert(nk.len() == 0);
    }
}

} // verus!
