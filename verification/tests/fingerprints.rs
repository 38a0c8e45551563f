use ast_tools::analysis::fingerprints::{fingerprint, is_identifier_kind, is_literal_kind};
use std::collections::hash_map::DefaultHasher;
use std::hash::{Hash, Hasher};

#[test]
fn identical_fingerprints() {
    let a = &["function_declaration", "identifier", "parameters", "block"];
    let b = &["function_declaration", "identifier", "parameters", "block"];
    assert_eq!(fingerprint(a, false, false), fingerprint(b, false, false));
}

#[test]
fn different_fingerprints() {
    let a = &["function_declaration", "block"];
    let b = &["class_declaration", "block"];
    assert_ne!(fingerprint(a, false, false), fingerprint(b, false, false));
}

#[test]
fn normalize_identifiers_collapses() {
    let a = &["function_declaration", "identifier", "block"];
    let b = &["function_declaration", "property_identifier", "block"];
    assert_eq!(fingerprint(a, true, false), fingerprint(b, true, false));
}

#[test]
fn normalize_literals_collapses() {
    let a = &["expression_statement", "string"];
    let b = &["expression_statement", "number"];
    assert_eq!(fingerprint(a, false, true), fingerprint(b, false, true));
}

#[test]
fn fingerprint_is_lowercase_hex() {
    let f = fingerprint(&["program"], false, false);
    assert!(!f.is_empty());
    assert!(f.chars().all(|c| c.is_ascii_hexdigit() && !c.is_ascii_uppercase()));
    assert!(f.len() <= 16);
}

#[test]
fn fingerprint_matches_default_hasher() {
    let kinds = ["function_declaration", "identifier", "string"];
    let mut h = DefaultHasher::new();
    for k in ["function_declaration", "IDENT", "LITERAL"] {
        k.hash(&mut h);
    }
    let expected = format!("{:x}", h.finish());
    assert_eq!(fingerprint(&kinds, true, true), expected);
}

#[test]
fn normalization_off_keeps_kinds_apart() {
    let a = &["identifier"];
    let b = &["property_identifier"];
    assert_ne!(fingerprint(a, false, false), fingerprint(b, false, false));
    assert_ne!(fingerprint(a, false, true), fingerprint(b, false, true));
}

#[test]
fn identifier_and_literal_kinds() {
    assert!(is_identifier_kind("type_identifier"));
    assert!(!is_identifier_kind("string"));
    assert!(is_literal_kind("boolean"));
    assert!(!is_literal_kind("identifier"));
}
