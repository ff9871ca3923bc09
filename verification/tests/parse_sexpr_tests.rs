//! Tests of the text grammar: tokens, nesting, and malformed inputs.

use kicad_parser::parser::LexErrorKind;
use kicad_parser::scalar::Scalar;
use kicad_parser::sexpr::{parse_expr, parse_sexpr, SExpr, SExprList, SExprSymbol, SExprValue};

fn num(units: i64) -> SExpr {
    SExpr::Number(Scalar { units })
}

fn sym(s: &str) -> SExpr {
    SExpr::Symbol(SExprSymbol(s.to_string()))
}

fn val(s: &str) -> SExpr {
    SExpr::Value(SExprValue(s.to_string()))
}

fn list(items: Vec<SExpr>) -> SExpr {
    SExpr::List(SExprList(items))
}

#[test]
fn test_hexadecimal() {
    assert_eq!(
        kicad_parser::sexpr::hexadecimal("0x1234"),
        Ok(("".to_string(), 0x1234))
    );
    assert_eq!(
        kicad_parser::sexpr::hexadecimal("0x00000000_00000000_55555555_5755f5ff"),
        Ok(("".to_string(), 0x00000000_00000000_55555555_5755f5ff))
    );
    assert!(kicad_parser::sexpr::hexadecimal("1234").is_err());
}

#[test]
fn parse_sexpr_test_hexadecimal() {
    assert_eq!(
        kicad_parser::sexpr::hexadecimal("0x1234"),
        Ok(("".to_string(), 0x1234))
    );
    assert_eq!(
        kicad_parser::sexpr::hexadecimal("0x00000000_00000000_55555555_5755f5ff"),
        Ok(("".to_string(), 0x00000000_00000000_55555555_5755f5ff))
    );
    assert!(kicad_parser::sexpr::hexadecimal("1234").is_err());
}

#[test]
fn test_parse_number() {
    assert_eq!(parse_expr("42"), Ok(num(42_000_000)));
    assert_eq!(parse_expr("  3.14 "), Ok(num(3_140_000)));
}

#[test]
fn parse_sexpr_tests_test_parse_number() {
    assert_eq!(parse_expr("42"), Ok(num(42_000_000)));
    assert_eq!(parse_expr("  3.14 "), Ok(num(3_140_000)));
}

#[test]
fn test_parse_string() {
    assert_eq!(parse_expr("\"hello\""), Ok(val("hello")));
    assert_eq!(parse_expr("\"abc123\""), Ok(val("abc123")));
}

#[test]
fn parse_sexpr_tests_test_parse_string() {
    assert_eq!(parse_expr("\"hello\""), Ok(val("hello")));
    assert_eq!(parse_expr("\"abc123\""), Ok(val("abc123")));
}

#[test]
fn test_parse_empty_list() {
    assert_eq!(parse_expr("()"), Ok(list(vec![])));
}

#[test]
fn parse_sexpr_tests_test_parse_empty_list() {
    assert_eq!(parse_expr("()"), Ok(list(vec![])));
}

#[test]
fn test_parse_simple_list() {
    assert_eq!(
        parse_expr("(42 foo)"),
        Ok(list(vec![num(42_000_000), sym("foo")]))
    );
}

#[test]
fn parse_sexpr_tests_test_parse_simple_list() {
    assert_eq!(
        parse_expr("(42 foo)"),
        Ok(list(vec![num(42_000_000), sym("foo")]))
    );
}

#[test]
fn test_parse_nested_list() {
    assert_eq!(
        parse_expr("(1 (2 3) \"bar\")"),
        Ok(list(vec![
            num(1_000_000),
            list(vec![num(2_000_000), num(3_000_000)]),
            val("bar")
        ]))
    );
}

#[test]
fn parse_sexpr_tests_test_parse_nested_list() {
    assert_eq!(
        parse_expr("(1 (2 3) \"bar\")"),
        Ok(list(vec![
            num(1_000_000),
            list(vec![num(2_000_000), num(3_000_000)]),
            val("bar")
        ]))
    );
}

#[test]
fn test_parse_list_with_spaces() {
    assert_eq!(
        parse_expr(" ( 1   2   3 ) "),
        Ok(list(vec![num(1_000_000), num(2_000_000), num(3_000_000)]))
    );
}

#[test]
fn parse_sexpr_tests_test_parse_list_with_spaces() {
    assert_eq!(
        parse_expr(" ( 1   2   3 ) "),
        Ok(list(vec![num(1_000_000), num(2_000_000), num(3_000_000)]))
    );
}

#[test]
fn test_parse_long_int() {
    assert_eq!(
        parse_expr(
            "(pcbplotparams
          (layerselection 0x00000000_00000000_55555555_5755f5ff)
        )"
        ),
        Ok(list(vec![
            sym("pcbplotparams"),
            list(vec![
                sym("layerselection"),
                SExpr::Hex(0x00000000_00000000_55555555_5755f5ff)
            ]),
        ]))
    );
}

#[test]
fn parse_sexpr_tests_test_parse_long_int() {
    assert_eq!(
        parse_expr(
            "(pcbplotparams
          (layerselection 0x00000000_00000000_55555555_5755f5ff)
        )"
        ),
        Ok(list(vec![
            sym("pcbplotparams"),
            list(vec![
                sym("layerselection"),
                SExpr::Hex(0x00000000_00000000_55555555_5755f5ff)
            ]),
        ]))
    );
}

#[test]
fn test_parse_invalid_input() {
    assert!(parse_expr("(1 2").is_err());
    assert!(parse_expr("\"unterminated").is_err());
    assert!(parse_expr(")").is_err());
}

#[test]
fn parse_sexpr_tests_test_parse_invalid_input() {
    assert!(parse_expr("(1 2").is_err());
    assert!(parse_expr("\"unterminated").is_err());
    assert!(parse_expr(")").is_err());
}

#[test]
fn parse_three_numbers_in_order() {
    assert_eq!(
        parse_expr("(1 2 3)"),
        Ok(list(vec![num(1_000_000), num(2_000_000), num(3_000_000)]))
    );
}

#[test]
fn parse_negative_and_fractional_numbers() {
    assert_eq!(parse_expr("-0.5"), Ok(num(-500_000)));
    assert_eq!(parse_expr("-7"), Ok(num(-7_000_000)));
    assert_eq!(parse_expr(".25"), Ok(num(250_000)));
    assert_eq!(parse_expr("1.2345678"), Ok(num(1_234_567)));
}

#[test]
fn parse_symbols_with_dots_and_dashes() {
    assert_eq!(parse_expr("F.Cu"), Ok(sym("F.Cu")));
    assert_eq!(parse_expr("a-b_c?d!e"), Ok(sym("a-b_c?d!e")));
}

#[test]
fn parse_empty_quoted_value() {
    assert_eq!(parse_expr("\"\""), Ok(val("")));
}

#[test]
fn parse_root_must_be_list() {
    let err = parse_sexpr("42").unwrap_err();
    assert_eq!(err.kind, LexErrorKind::RootNotList);
    assert!(parse_sexpr("(net 1 \"x\")").is_ok());
}

#[test]
fn parse_trailing_input_is_an_error() {
    let err = parse_expr("() x").unwrap_err();
    assert_eq!(err.kind, LexErrorKind::TrailingInput);
}

#[test]
fn parse_number_out_of_range_is_an_error() {
    let err = parse_expr("99999999999999999999").unwrap_err();
    assert_eq!(err.kind, LexErrorKind::NumberOutOfRange);
}

#[test]
fn parse_hex_out_of_range_is_an_error() {
    let err = parse_expr("0x1_0000_0000_0000_0000_0000").unwrap_err();
    assert_eq!(err.kind, LexErrorKind::HexOutOfRange);
}

#[test]
fn parse_bad_token_reports_its_offset() {
    let err = parse_expr(")").unwrap_err();
    assert_eq!(err.kind, LexErrorKind::BadToken);
    assert_eq!(err.offset, 0);
}

#[test]
fn parse_unterminated_inputs_report_unexpected_end() {
    assert_eq!(
        parse_expr("(1 2").unwrap_err().kind,
        LexErrorKind::UnexpectedEnd
    );
    assert_eq!(
        parse_expr("\"unterminated").unwrap_err().kind,
        LexErrorKind::UnexpectedEnd
    );
    assert_eq!(parse_expr("   ").unwrap_err().kind, LexErrorKind::UnexpectedEnd);
}
