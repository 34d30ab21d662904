//! Tests for the electron-configuration notation: parsing, plain and
//! stylized rendering, and the superscript digit algorithm.

use chemistru_elements::electron::{to_superscript, ElectronConfiguration, Suborbital};
use chemistru_elements::DataError;

#[test]
fn superscript_single_digit() {
    assert_eq!(to_superscript(6), "⁶");
    assert_eq!(to_superscript(2), "²");
    assert_eq!(to_superscript(0), "⁰");
    assert_eq!(to_superscript(9), "⁹");
}

#[test]
fn superscript_two_digits() {
    assert_eq!(to_superscript(10), "¹⁰");
    assert_eq!(to_superscript(14), "¹⁴");
    assert_eq!(to_superscript(99), "⁹⁹");
}

#[test]
fn superscript_three_digits() {
    assert_eq!(to_superscript(100), "¹⁰⁰");
    assert_eq!(to_superscript(255), "²⁵⁵");
    assert_eq!(to_superscript(105), "¹⁰⁵");
}

#[test]
fn suborbital_accessors() {
    let s = Suborbital::new(2, 1, 6);
    assert_eq!(s.principal_quantum_number(), 2);
    assert_eq!(s.azimuthal_quantum_number(), 1);
    assert_eq!(s.electron_number(), 6);
}

#[test]
fn suborbital_blocks() {
    assert_eq!(Suborbital::new(1, 0, 2).block(), 's');
    assert_eq!(Suborbital::new(2, 1, 6).block(), 'p');
    assert_eq!(Suborbital::new(3, 2, 10).block(), 'd');
    assert_eq!(Suborbital::new(4, 3, 14).block(), 'f');
}

#[test]
fn suborbital_renderings() {
    let s = Suborbital::new(2, 1, 6);
    assert_eq!(s.to_string_nonstylized(), "2p6");
    assert_eq!(s.to_string_stylized(), "2p⁶");
    let t = Suborbital::new(4, 3, 14);
    assert_eq!(t.to_string_nonstylized(), "4f14");
    assert_eq!(t.to_string_stylized(), "4f¹⁴");
}

#[test]
fn parse_three_suborbitals_in_order() {
    let cfg = ElectronConfiguration::parse("1s2 2s2 2p6").expect("well-formed notation");
    let subs = cfg.suborbitals();
    assert_eq!(subs.len(), 3);
    assert_eq!(subs[0], Suborbital::new(1, 0, 2));
    assert_eq!(subs[1], Suborbital::new(2, 0, 2));
    assert_eq!(subs[2], Suborbital::new(2, 1, 6));
    assert_eq!(cfg.format(true), "1s2 2s2 2p6");
    assert_eq!(cfg.format(false), "1s² 2s² 2p⁶");
}

#[test]
fn parse_keeps_repeated_orbitals() {
    let cfg = ElectronConfiguration::parse("1s1 1s1").expect("well-formed notation");
    let subs = cfg.suborbitals();
    assert_eq!(subs.len(), 2);
    assert_eq!(subs[0], subs[1]);
}

#[test]
fn parse_is_case_insensitive_in_block_letter() {
    let cfg = ElectronConfiguration::parse("3D7").expect("well-formed notation");
    assert_eq!(cfg.suborbitals()[0], Suborbital::new(3, 2, 7));
    // The plain rendering is the canonical (lowercase) equivalent token.
    assert_eq!(cfg.format(true), "3d7");
}

#[test]
fn parse_round_trip_is_canonical() {
    // Leading zeros in the electron count are not canonical: the round trip
    // reproduces an equivalent token, not a byte-identical one.
    let cfg = ElectronConfiguration::parse("2p06").expect("well-formed notation");
    assert_eq!(cfg.suborbitals()[0], Suborbital::new(2, 1, 6));
    assert_eq!(cfg.format(true), "2p6");
}

#[test]
fn parse_multi_digit_count() {
    let cfg = ElectronConfiguration::parse("5f14").expect("well-formed notation");
    assert_eq!(cfg.suborbitals()[0], Suborbital::new(5, 3, 14));
    assert_eq!(cfg.format(true), "5f14");
    assert_eq!(cfg.format(false), "5f¹⁴");
}

#[test]
fn parse_rejects_empty_input() {
    assert_eq!(
        ElectronConfiguration::parse(""),
        Err(DataError::MalformedConfiguration(String::new()))
    );
}

#[test]
fn parse_rejects_short_token() {
    assert_eq!(
        ElectronConfiguration::parse("1s2 2s"),
        Err(DataError::MalformedConfiguration("2s".to_string()))
    );
}

#[test]
fn parse_rejects_bad_principal_digit() {
    assert_eq!(
        ElectronConfiguration::parse("0s2"),
        Err(DataError::MalformedConfiguration("0s2".to_string()))
    );
    assert_eq!(
        ElectronConfiguration::parse("xs2"),
        Err(DataError::MalformedConfiguration("xs2".to_string()))
    );
}

#[test]
fn parse_rejects_bad_block_letter() {
    assert_eq!(
        ElectronConfiguration::parse("1s2 1x2"),
        Err(DataError::MalformedConfiguration("1x2".to_string()))
    );
}

#[test]
fn parse_rejects_non_numeric_suffix() {
    assert_eq!(
        ElectronConfiguration::parse("1s2a"),
        Err(DataError::MalformedConfiguration("1s2a".to_string()))
    );
}

#[test]
fn parse_rejects_oversized_count() {
    assert_eq!(
        ElectronConfiguration::parse("1s999"),
        Err(DataError::MalformedConfiguration("1s999".to_string()))
    );
}

#[test]
fn parse_rejects_consecutive_spaces() {
    // Splitting happens on every single space, so a double space yields an
    // empty token, which is malformed.
    assert_eq!(
        ElectronConfiguration::parse("1s2  2s2"),
        Err(DataError::MalformedConfiguration(String::new()))
    );
}

#[test]
fn parse_reports_leftmost_offending_token() {
    assert_eq!(
        ElectronConfiguration::parse("1s2 1y2 1z2"),
        Err(DataError::MalformedConfiguration("1y2".to_string()))
    );
}

#[test]
fn empty_configuration_formats_to_empty_string() {
    let cfg = ElectronConfiguration::new(Vec::new());
    assert_eq!(cfg.format(true), "");
    assert_eq!(cfg.format(false), "");
}

#[test]
fn format_then_parse_returns_the_same_suborbitals() {
    let subs = vec![
        Suborbital::new(1, 0, 2),
        Suborbital::new(2, 0, 2),
        Suborbital::new(2, 1, 6),
        Suborbital::new(3, 3, 14),
    ];
    let cfg = ElectronConfiguration::new(subs.clone());
    let text = cfg.format(true);
    let reparsed = ElectronConfiguration::parse(&text).expect("rendering is well formed");
    assert_eq!(reparsed.suborbitals(), &subs);
}

#[test]
fn configuration_new_keeps_order() {
    let subs = vec![Suborbital::new(2, 1, 6), Suborbital::new(1, 0, 2)];
    let cfg = ElectronConfiguration::new(subs);
    assert_eq!(cfg.format(true), "2p6 1s2");
}
