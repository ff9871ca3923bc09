//! Tests of the sequential node cursor: ordered extraction, lookahead,
//! bulk discard, and the emptiness guard.

use kicad_parser::scalar::Scalar;
use kicad_parser::sexpr::{SExpr, SExprList, SExprSymbol, SExprValue};

fn sample() -> SExprList {
    SExprList(vec![
        SExpr::Symbol(SExprSymbol("at".to_string())),
        SExpr::Number(Scalar { units: 1_500_000 }),
        SExpr::Value(SExprValue("name".to_string())),
        SExpr::Hex(0x2a),
    ])
}

#[test]
fn cursor_peeks_without_consuming() {
    let list = sample();
    assert_eq!(list.peek_name().unwrap(), "at");
    assert_eq!(list.peek_name_maybe().unwrap(), Some("at"));
    assert_eq!(list.len(), 4);
}

#[test]
fn cursor_extracts_in_order() {
    let mut list = sample();
    let tag = list.next_symbol().unwrap();
    assert_eq!(tag.as_str(), "at");
    let x = list.next_scalar().unwrap();
    assert_eq!(x, Scalar { units: 1_500_000 });
    let name = list.next_string().unwrap();
    assert_eq!(name, "name".to_string());
    // A hexadecimal value read as a length counts whole millimeters.
    let h = list.next_scalar().unwrap();
    assert_eq!(h, Scalar { units: 42_000_000 });
    assert!(list.expect_end().is_ok());
    assert!(list.next_maybe().is_none());
}

#[test]
fn cursor_discard_skips_leading_fields() {
    let mut list = sample();
    list.discard(2).unwrap();
    assert_eq!(list.len(), 2);
    assert_eq!(list.next_string().unwrap(), "name".to_string());
}

#[test]
fn cursor_discard_past_the_end_is_an_error() {
    let mut list = sample();
    assert!(list.discard(5).is_err());
    // The cursor is left unchanged by the failed discard.
    assert_eq!(list.len(), 4);
}

#[test]
fn cursor_wrong_kind_is_an_error() {
    let mut list = sample();
    assert!(list.next_list().is_err());
    let mut list2 = sample();
    assert!(list2.next_string().is_err());
}

#[test]
fn cursor_maybe_variants_absorb_the_end() {
    let mut list = SExprList(vec![]);
    assert_eq!(list.next_maybe_scalar().unwrap(), None);
    assert!(list.next_maybe_symbol().unwrap().is_none());
    assert!(list.next_maybe_list().unwrap().is_none());
    assert!(list.next_maybe_string().unwrap().is_none());
    assert!(list.expect_end().is_ok());
}

#[test]
fn cursor_expect_end_reports_leftovers() {
    let list = sample();
    assert!(list.expect_end().is_err());
}

#[test]
fn cursor_numeric_conversions_clamp_and_truncate() {
    let mut list = SExprList(vec![
        SExpr::Number(Scalar { units: 2_700_000 }),
        SExpr::Number(Scalar { units: -5_000_000 }),
        SExpr::Hex(300),
    ]);
    assert_eq!(list.next_u32().unwrap(), 2);
    assert_eq!(list.next_i32().unwrap(), -5);
    assert_eq!(list.next_u8().unwrap(), 255);
}
