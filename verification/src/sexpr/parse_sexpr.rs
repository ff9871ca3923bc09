//! The text grammar: whitespace-separated atoms and parenthesized lists.
//!
//! The grammar is stated twice: once as total spec functions over the input's
//! character sequence (the reference semantics), and once as executable
//! recursive descent proved equal to them.
//!
//! Token policy, chosen deliberately and kept simple: a token is a maximal
//! run of symbol characters (ASCII letters and digits, `_`, `-`, `?`, `!`,
//! `.`), classified afterwards as a hexadecimal integer (`0x` plus digits and
//! `_` separators), a decimal number, or a bare symbol. Adjacent delimiters
//! need no intervening space. A decimal number is `-?` digits with at most
//! one `.` and at least one digit; fraction digits beyond the sixth are
//! dropped, since values are held in millionths of a millimeter. A number
//! whose value leaves the coordinate range, or a hexadecimal value beyond 64
//! bits, is a reported lexical error, never a panic.

use vstd::prelude::*;

verus! {

use crate::parser::{LexError, LexErrorKind};
use crate::scalar::Scalar;
use crate::sexpr::{models_of, NodeModel, SExpr, SExprList, SExprSymbol, SExprValue};
use crate::sexpr::lemma_models_of;

/// The largest whole-millimeter magnitude a coordinate can hold.
pub const INT_MM_LIMIT: u64 = 10_000_000_000_000;

// ---------------------------------------------------------------------------
// Character classes
// ---------------------------------------------------------------------------

/// Whitespace between tokens.
pub open spec fn is_ws_char(c: char) -> bool {
    c == ' ' || c == '\t' || c == '\r' || c == '\n'
}

/// A character that may stand in a bare token.
pub open spec fn is_symbol_char(c: char) -> bool {
    ('a' <= c && c <= 'z') || ('A' <= c && c <= 'Z') || ('0' <= c && c <= '9') || c == '_' || c
        == '-' || c == '?' || c == '!' || c == '.'
}

/// A decimal digit.
pub open spec fn is_digit(c: char) -> bool {
    '0' <= c && c <= '9'
}

/// A hexadecimal digit.
pub open spec fn is_hex_digit(c: char) -> bool {
    is_digit(c) || ('a' <= c && c <= 'f') || ('A' <= c && c <= 'F')
}

/// The value of a decimal digit.
pub open spec fn digit_val(c: char) -> int {
    c as u32 - '0' as u32
}

/// The value of a hexadecimal digit.
pub open spec fn hex_digit_val(c: char) -> int {
    if is_digit(c) {
        digit_val(c)
    } else if 'a' <= c && c <= 'f' {
        c as u32 - 'a' as u32 + 10
    } else {
        c as u32 - 'A' as u32 + 10
    }
}

fn is_ws_exec(c: char) -> (r: bool)
    ensures
        r == is_ws_char(c),
{
    c == ' ' || c == '\t' || c == '\r' || c == '\n'
}

fn is_symbol_char_exec(c: char) -> (r: bool)
    ensures
        r == is_symbol_char(c),
{
    ('a' <= c && c <= 'z') || ('A' <= c && c <= 'Z') || ('0' <= c && c <= '9') || c == '_' || c
        == '-' || c == '?' || c == '!' || c == '.'
}

fn is_digit_exec(c: char) -> (r: bool)
    ensures
        r == is_digit(c),
{
    '0' <= c && c <= '9'
}

fn is_hex_digit_exec(c: char) -> (r: bool)
    ensures
        r == is_hex_digit(c),
{
    ('0' <= c && c <= '9') || ('a' <= c && c <= 'f') || ('A' <= c && c <= 'F')
}

fn digit_val_exec(c: char) -> (r: u64)
    requires
        is_digit(c),
    ensures
        r as int == digit_val(c),
        r <= 9,
{
    (c as u32 - '0' as u32) as u64
}

fn hex_digit_val_exec(c: char) -> (r: u64)
    requires
        is_hex_digit(c),
    ensures
        r as int == hex_digit_val(c),
        r <= 15,
{
    if '0' <= c && c <= '9' {
        (c as u32 - '0' as u32) as u64
    } else if 'a' <= c && c <= 'f' {
        (c as u32 - 'a' as u32 + 10) as u64
    } else {
        (c as u32 - 'A' as u32 + 10) as u64
    }
}

// ---------------------------------------------------------------------------
// Token classification
// ---------------------------------------------------------------------------

/// The shape of a hexadecimal token: `0x`, then hexadecimal digits with `_`
/// separators, at least one digit among them.
pub open spec fn is_hex_token(t: Seq<char>) -> bool {
    &&& t.len() >= 3
    &&& t[0] == '0'
    &&& t[1] == 'x'
    &&& (forall|j: int| 2 <= j < t.len() ==> is_hex_digit(#[trigger] t[j]) || t[j] == '_')
    &&& (exists|j: int| 2 <= j < t.len() && is_hex_digit(#[trigger] t[j]))
}

/// The value of the hexadecimal digits of `t` from position `i` on, with `_`
/// separators skipped, accumulated onto `acc`.
pub open spec fn spec_hex_fold(t: Seq<char>, i: int, acc: int) -> int
    decreases t.len() - i,
{
    if 0 <= i < t.len() {
        if t[i] == '_' {
            spec_hex_fold(t, i + 1, acc)
        } else {
            spec_hex_fold(t, i + 1, acc * 16 + hex_digit_val(t[i]))
        }
    } else {
        acc
    }
}

/// The index of `-`-sign-adjusted first digit position of a numeric token.
pub open spec fn num_start(t: Seq<char>) -> int {
    if t.len() > 0 && t[0] == '-' {
        1
    } else {
        0
    }
}

/// The position of the first `.` at or after `i`, or the token's length.
pub open spec fn spec_dot_pos(t: Seq<char>, i: int) -> int
    decreases t.len() - i,
{
    if 0 <= i < t.len() {
        if t[i] == '.' {
            i
        } else {
            spec_dot_pos(t, i + 1)
        }
    } else {
        t.len() as int
    }
}

/// The shape of a decimal number token: an optional sign, then digits with
/// at most one `.` among them and at least one digit.
pub open spec fn is_num_token(t: Seq<char>) -> bool {
    let p = num_start(t);
    &&& t.len() > p
    &&& (forall|j: int| p <= j < t.len() ==> is_digit(#[trigger] t[j]) || t[j] == '.')
    &&& (forall|j: int| spec_dot_pos(t, p) < j < t.len() ==> #[trigger] t[j] != '.')
    &&& (exists|j: int| p <= j < t.len() && is_digit(#[trigger] t[j]))
}

/// The value of the decimal digits of `t` in `[i, j)`, accumulated onto `acc`.
pub open spec fn spec_dec_fold(t: Seq<char>, i: int, j: int, acc: int) -> int
    decreases j - i,
{
    if i < j && 0 <= i < t.len() {
        spec_dec_fold(t, i + 1, j, acc * 10 + digit_val(t[i]))
    } else {
        acc
    }
}

/// Ten to the power `n`.
pub open spec fn pow10(n: nat) -> int
    decreases n,
{
    if n == 0 {
        1
    } else {
        10 * pow10((n - 1) as nat)
    }
}

/// The unit count named by a decimal number token: the signed decimal value
/// scaled by one million, with fraction digits beyond the sixth dropped.
pub open spec fn spec_num_units(t: Seq<char>) -> int {
    let p = num_start(t);
    let dp = spec_dot_pos(t, p);
    let iv = spec_dec_fold(t, p, dp, 0);
    let fv = if dp >= t.len() {
        0
    } else {
        let fs = dp + 1;
        let fe = if fs + 6 <= t.len() {
            fs + 6
        } else {
            t.len() as int
        };
        spec_dec_fold(t, fs, fe, 0) * pow10((6 - (fe - fs)) as nat)
    };
    let mag = iv * 1_000_000 + fv;
    if p == 1 {
        -mag
    } else {
        mag
    }
}

/// The node named by one bare token, or nothing when its value leaves the
/// representable range.
pub open spec fn spec_atom(t: Seq<char>) -> Option<NodeModel> {
    if is_hex_token(t) {
        let v = spec_hex_fold(t, 2, 0);
        if v <= u64::MAX {
            Some(NodeModel::Hex(v as u64))
        } else {
            None
        }
    } else if is_num_token(t) {
        let u = spec_num_units(t);
        if i64::MIN <= u <= i64::MAX {
            Some(NodeModel::Number(u))
        } else {
            None
        }
    } else {
        Some(NodeModel::Symbol(t))
    }
}

// ---------------------------------------------------------------------------
// The spec parser
// ---------------------------------------------------------------------------

/// The end of the maximal symbol-character run starting at `i`.
pub open spec fn spec_token_end(s: Seq<char>, i: int) -> int
    decreases s.len() - i,
{
    if 0 <= i < s.len() && is_symbol_char(s[i]) {
        spec_token_end(s, i + 1)
    } else {
        i
    }
}

/// The position of the closing quote at or after `i`, or the input's length.
pub open spec fn spec_quote_end(s: Seq<char>, i: int) -> int
    decreases s.len() - i,
{
    if 0 <= i < s.len() {
        if s[i] == '"' {
            i
        } else {
            spec_quote_end(s, i + 1)
        }
    } else {
        s.len() as int
    }
}

/// Parses one expression at position `i`: skips whitespace, then reads a
/// list, a quoted value, or a bare token. Yields the node and the position
/// just past it, or nothing on malformed input.
pub open spec fn spec_parse_expr(s: Seq<char>, i: int) -> Option<(NodeModel, int)>
    decreases s.len() - i, 1int,
{
    if i < 0 || i >= s.len() {
        None
    } else if is_ws_char(s[i]) {
        spec_parse_expr(s, i + 1)
    } else if s[i] == '(' {
        match spec_parse_elems(s, i + 1) {
            Some((elems, k)) => Some((NodeModel::List(elems), k)),
            None => None,
        }
    } else if s[i] == '"' {
        let q = spec_quote_end(s, i + 1);
        if q < s.len() {
            Some((NodeModel::Value(s.subrange(i + 1, q)), q + 1))
        } else {
            None
        }
    } else if is_symbol_char(s[i]) {
        let e = spec_token_end(s, i);
        match spec_atom(s.subrange(i, e)) {
            Some(v) => Some((v, e)),
            None => None,
        }
    } else {
        None
    }
}

/// Parses the remaining elements of an open list up to and past its `)`.
pub open spec fn spec_parse_elems(s: Seq<char>, i: int) -> Option<(Seq<NodeModel>, int)>
    decreases s.len() - i, 2int,
{
    if i < 0 || i >= s.len() {
        None
    } else if is_ws_char(s[i]) {
        spec_parse_elems(s, i + 1)
    } else if s[i] == ')' {
        Some((Seq::empty(), i + 1))
    } else {
        match spec_parse_expr(s, i) {
            None => None,
            Some((v, k)) => if k <= i || k > s.len() {
                None
            } else {
                match spec_parse_elems(s, k) {
                    None => None,
                    Some((rest, end)) => Some((seq![v] + rest, end)),
                }
            },
        }
    }
}

/// Whether everything from `i` on is whitespace.
pub open spec fn spec_all_ws(s: Seq<char>, i: int) -> bool
    decreases s.len() - i,
{
    if 0 <= i < s.len() {
        is_ws_char(s[i]) && spec_all_ws(s, i + 1)
    } else {
        true
    }
}

/// The single expression named by a whole text, with nothing but whitespace
/// around it.
pub open spec fn spec_parse_text(s: Seq<char>) -> Option<NodeModel> {
    match spec_parse_expr(s, 0) {
        Some((v, k)) => if spec_all_ws(s, k) {
            Some(v)
        } else {
            None
        },
        None => None,
    }
}

/// The children of the top-level list named by a whole text; nothing when
/// the root is not a list.
pub open spec fn spec_parse_root(s: Seq<char>) -> Option<Seq<NodeModel>> {
    match spec_parse_text(s) {
        Some(NodeModel::List(elems)) => Some(elems),
        _ => None,
    }
}

// ---------------------------------------------------------------------------
// Lemmas about the spec parser
// ---------------------------------------------------------------------------

/// `spec_token_end` stays within the input and moves right.
pub proof fn lemma_token_end_bounds(s: Seq<char>, i: int)
    requires
        0 <= i <= s.len(),
    ensures
        i <= spec_token_end(s, i) <= s.len(),
    decreases s.len() - i,
{
    if i < s.len() && is_symbol_char(s[i]) {
        lemma_token_end_bounds(s, i + 1);
    }
}

/// `spec_quote_end` stays within the input and moves right.
pub proof fn lemma_quote_end_bounds(s: Seq<char>, i: int)
    requires
        0 <= i <= s.len(),
    ensures
        i <= spec_quote_end(s, i) <= s.len(),
    decreases s.len() - i,
{
    if i < s.len() && s[i] != '"' {
        lemma_quote_end_bounds(s, i + 1);
    }
}

/// A successful expression parse consumes at least one character and stays
/// within the input.
pub proof fn lemma_parse_expr_advances(s: Seq<char>, i: int)
    ensures
        spec_parse_expr(s, i) matches Some((v, k)) ==> i < k <= s.len(),
    decreases s.len() - i, 1int,
{
    if 0 <= i < s.len() {
        if is_ws_char(s[i]) {
            lemma_parse_expr_advances(s, i + 1);
        } else if s[i] == '(' {
            lemma_parse_elems_advances(s, i + 1);
        } else if s[i] == '"' {
            lemma_quote_end_bounds(s, i + 1);
        } else if is_symbol_char(s[i]) {
            lemma_token_end_bounds(s, i + 1);
            assert(spec_token_end(s, i) == spec_token_end(s, i + 1));
        }
    }
}

/// A successful element-sequence parse consumes at least one character and
/// stays within the input.
pub proof fn lemma_parse_elems_advances(s: Seq<char>, i: int)
    ensures
        spec_parse_elems(s, i) matches Some((es, end)) ==> i < end <= s.len(),
    decreases s.len() - i, 2int,
{
    if 0 <= i < s.len() {
        if is_ws_char(s[i]) {
            lemma_parse_elems_advances(s, i + 1);
        } else if s[i] == ')' {
        } else {
            lemma_parse_expr_advances(s, i);
            match spec_parse_expr(s, i) {
                Some((v, k)) => {
                    if i < k <= s.len() {
                        lemma_parse_elems_advances(s, k);
                    }
                },
                None => {},
            }
        }
    }
}

/// A hexadecimal fold never shrinks below its accumulator.
pub proof fn lemma_hex_fold_ge(t: Seq<char>, i: int, acc: int)
    requires
        acc >= 0,
        forall|j: int| i <= j < t.len() ==> is_hex_digit(#[trigger] t[j]) || t[j] == '_',
    ensures
        spec_hex_fold(t, i, acc) >= acc,
    decreases t.len() - i,
{
    if 0 <= i < t.len() {
        if t[i] == '_' {
            lemma_hex_fold_ge(t, i + 1, acc);
        } else {
            assert(is_hex_digit(t[i]));
            assert(hex_digit_val(t[i]) >= 0);
            lemma_hex_fold_ge(t, i + 1, acc * 16 + hex_digit_val(t[i]));
        }
    }
}

/// A decimal fold never shrinks below its accumulator.
pub proof fn lemma_dec_fold_ge(t: Seq<char>, i: int, j: int, acc: int)
    requires
        acc >= 0,
        forall|m: int| i <= m < j && 0 <= m < t.len() ==> is_digit(#[trigger] t[m]),
    ensures
        spec_dec_fold(t, i, j, acc) >= acc,
    decreases j - i,
{
    if i < j && 0 <= i < t.len() {
        assert(is_digit(t[i]));
        assert(digit_val(t[i]) >= 0);
        lemma_dec_fold_ge(t, i + 1, j, acc * 10 + digit_val(t[i]));
    }
}

/// The first `.` at or after `i` is at `d`: nothing before it is a dot, and
/// either `d` holds a dot or the token has none.
pub proof fn lemma_dot_pos_first(t: Seq<char>, i: int, d: int)
    requires
        0 <= i <= d <= t.len(),
        forall|j: int| i <= j < d ==> #[trigger] t[j] != '.',
        d < t.len() ==> t[d] == '.',
    ensures
        spec_dot_pos(t, i) == d,
    decreases d - i,
{
    if i < d {
        lemma_dot_pos_first(t, i + 1, d);
    }
}

// ---------------------------------------------------------------------------
// The executable lexer
// ---------------------------------------------------------------------------

/// Collects a string's characters into a vector for positional access.
fn str_chars(s: &str) -> (v: Vec<char>)
    ensures
        v@ == s@,
{
    let n = s.unicode_len();
    let mut v: Vec<char> = Vec::new();
    let mut i: usize = 0;
    while i < n
        invariant
            n == s@.len(),
            i <= n,
            v@ =~= s@.subrange(0, i as int),
        decreases n - i,
    {
        v.push(s.get_char(i));
        i = i + 1;
    }
    proof {
        assert(v@ =~= s@);
    }
    v
}

/// Reads one bare token spanning `[from, to)` and classifies it.
fn lex_atom(s: &str, cs: &Vec<char>, from: usize, to: usize) -> (r: Result<SExpr, LexError>)
    requires
        cs@ == s@,
        from < to <= cs@.len(),
    ensures
        match spec_atom(s@.subrange(from as int, to as int)) {
            Some(v) => r matches Ok(e) && e.model() == v,
            None => r is Err,
        },
{
    let ghost t = s@.subrange(from as int, to as int);
    proof {
        assert(t.len() == to - from);
        assert forall|j: int| 0 <= j < t.len() implies #[trigger] t[j] == cs@[from + j] by {}
    }
    // Hexadecimal shape.
    let mut hex_shape = false;
    if to - from >= 3 && cs[from] == '0' && cs[from + 1] == 'x' {
        let mut m = from + 2;
        let mut valid = true;
        let mut has_digit = false;
        while m < to
            invariant
                cs@ == s@,
                from + 2 <= m <= to <= cs@.len(),
                t == s@.subrange(from as int, to as int),
                t.len() == to - from,
                valid == (forall|j: int|
                    2 <= j < m - from ==> is_hex_digit(#[trigger] t[j]) || t[j] == '_'),
                has_digit == (exists|j: int| 2 <= j < m - from && is_hex_digit(#[trigger] t[j])),
            decreases to - m,
        {
            let c = cs[m];
            proof {
                assert(t[m - from] == cs@[m as int]);
            }
            if is_hex_digit_exec(c) {
                has_digit = true;
            } else if c != '_' {
                valid = false;
            }
            m = m + 1;
        }
        hex_shape = valid && has_digit;
    }
    proof {
        assert(t[0] == cs@[from as int]);
        if t.len() >= 2 {
            assert(t[1] == cs@[from + 1]);
        }
        assert(hex_shape == is_hex_token(t));
    }
    if hex_shape {
        // Fold the digit values, reporting overflow past 64 bits.
        let mut acc: u64 = 0;
        let mut m = from + 2;
        while m < to
            invariant
                cs@ == s@,
                from + 2 <= m <= to <= cs@.len(),
                t == s@.subrange(from as int, to as int),
                t.len() == to - from,
                is_hex_token(t),
                spec_hex_fold(t, 2, 0) == spec_hex_fold(t, m - from, acc as int),
            decreases to - m,
        {
            let c = cs[m];
            proof {
                assert(t[m - from] == cs@[m as int]);
            }
            if c != '_' {
                let d = hex_digit_val_exec(c);
                if acc > (u64::MAX - d) / 16 {
                    proof {
                        assert(acc as int * 16 + d as int > u64::MAX as int);
                        lemma_hex_fold_ge(t, m - from + 1, acc as int * 16 + d as int);
                        assert(spec_hex_fold(t, 2, 0) > u64::MAX as int);
                    }
                    return Err(LexError { kind: LexErrorKind::HexOutOfRange, offset: m });
                }
                acc = acc * 16 + d;
            }
            m = m + 1;
        }
        assert(spec_hex_fold(t, 2, 0) == acc as int);
        return Ok(SExpr::Hex(acc));
    }
    // Decimal number shape.
    let p: usize = if cs[from] == '-' {
        1
    } else {
        0
    };
    proof {
        assert(num_start(t) == p as int);
    }
    let mut m = from + p;
    let mut valid = to - from > p;
    let mut has_digit = false;
    let mut two_dots = false;
    let mut dot: usize = to;
    while m < to
        invariant
            cs@ == s@,
            from + p <= m <= to <= cs@.len(),
            p <= 1,
            from < to,
            t == s@.subrange(from as int, to as int),
            t.len() == to - from,
            valid == (to - from > p && (forall|j: int|
                p <= j < m - from ==> is_digit(#[trigger] t[j]) || t[j] == '.')),
            has_digit == (exists|j: int| p <= j < m - from && is_digit(#[trigger] t[j])),
            dot == to || (from + p <= dot < m && t[dot - from] == '.'),
            dot == to ==> (forall|j: int| p <= j < m - from ==> #[trigger] t[j] != '.'),
            dot < to ==> (forall|j: int| p <= j < dot - from ==> #[trigger] t[j] != '.'),
            two_dots == (dot < to && (exists|j: int|
                dot - from < j < m - from && #[trigger] t[j] == '.')),
        decreases to - m,
    {
        let c = cs[m];
        proof {
            assert(t[m - from] == cs@[m as int]);
        }
        if c == '.' {
            if dot == to {
                dot = m;
            } else {
                two_dots = true;
            }
        } else if is_digit_exec(c) {
            has_digit = true;
        } else {
            valid = false;
        }
        m = m + 1;
    }
    let num_shape = valid && has_digit && !two_dots;
    proof {
        let dp = if dot < to {
            dot - from
        } else {
            t.len() as int
        };
        if valid && has_digit && !two_dots {
            lemma_dot_pos_first(t, p as int, dp);
            assert(is_num_token(t));
        }
        if is_num_token(t) {
            assert(valid);
            assert(has_digit);
            if two_dots {
                lemma_dot_pos_first(t, p as int, dp);
                let jj = choose|j: int|
                    dot - from < j < t.len() && #[trigger] t[j] == '.';
                assert(t[jj] == '.');
                assert(false);
            }
        }
        assert(num_shape == is_num_token(t));
    }
    if num_shape {
        proof {
            lemma_dot_pos_first(
                t,
                p as int,
                if dot < to {
                    dot - from
                } else {
                    t.len() as int
                },
            );
        }
        // Fold the whole-millimeter digits, reporting a value past the
        // coordinate range.
        let mut acc: u64 = 0;
        let mut m = from + p;
        while m < dot
            invariant
                cs@ == s@,
                from + p <= m <= dot,
                dot <= to <= cs@.len(),
                p <= 1,
                from < to,
                t == s@.subrange(from as int, to as int),
                t.len() == to - from,
                is_num_token(t),
                num_start(t) == p as int,
                from + p <= dot,
                spec_dot_pos(t, p as int) == if dot < to {
                    dot - from
                } else {
                    t.len() as int
                },
                forall|j: int| p <= j < t.len() ==> is_digit(#[trigger] t[j]) || t[j] == '.',
                forall|j: int| p <= j < spec_dot_pos(t, p as int) ==> is_digit(#[trigger] t[j]),
                acc <= INT_MM_LIMIT,
                spec_dec_fold(t, p as int, spec_dot_pos(t, p as int), 0) == spec_dec_fold(
                    t,
                    m - from,
                    spec_dot_pos(t, p as int),
                    acc as int,
                ),
            decreases dot - m,
        {
            let c = cs[m];
            proof {
                assert(t[m - from] == cs@[m as int]);
            }
            let d = digit_val_exec(c);
            let next: u64 = acc * 10 + d;
            if next > INT_MM_LIMIT {
                proof {
                    lemma_dec_fold_ge(
                        t,
                        m - from + 1,
                        spec_dot_pos(t, p as int),
                        next as int,
                    );
                    let iv = spec_dec_fold(t, p as int, spec_dot_pos(t, p as int), 0);
                    assert(iv >= next as int);
                    assert(iv > INT_MM_LIMIT as int);
                    let dp = spec_dot_pos(t, p as int);
                    if dp < t.len() {
                        let fs = dp + 1;
                        let fe = if fs + 6 <= t.len() {
                            fs + 6
                        } else {
                            t.len() as int
                        };
                        lemma_dec_fold_ge(t, fs, fe, 0);
                        lemma_pow10_pos((6 - (fe - fs)) as nat);
                        assert(spec_dec_fold(t, fs, fe, 0) * pow10((6 - (fe - fs)) as nat)
                            >= 0) by (nonlinear_arith)
                            requires
                                spec_dec_fold(t, fs, fe, 0) >= 0,
                                pow10((6 - (fe - fs)) as nat) > 0,
                        ;
                    }
                    assert(spec_num_units(t) > i64::MAX as int || spec_num_units(t)
                        < i64::MIN as int);
                }
                return Err(LexError { kind: LexErrorKind::NumberOutOfRange, offset: m });
            }
            acc = next;
            m = m + 1;
        }
        let iv: u64 = acc;
        proof {
            assert(spec_dec_fold(t, p as int, spec_dot_pos(t, p as int), 0) == iv as int);
        }
        // Fold at most six fraction digits.
        let mut fv: u64 = 0;
        let mut k: usize = 0;
        let ghost dp = spec_dot_pos(t, p as int);
        let ghost fs = dp + 1;
        let ghost fe = if fs + 6 <= t.len() {
            fs + 6
        } else {
            t.len() as int
        };
        if dot < to {
            let fstart = dot + 1;
            let fend = if to - fstart >= 6 {
                fstart + 6
            } else {
                to
            };
            proof {
                assert(fs == fstart - from);
                assert(fe == fend - from);
            }
            let mut m2 = fstart;
            while m2 < fend
                invariant
                    cs@ == s@,
                    dot < to,
                    from < fstart <= m2 <= fend <= to <= cs@.len(),
                    t == s@.subrange(from as int, to as int),
                    t.len() == to - from,
                    is_num_token(t),
                    num_start(t) == p as int,
                    fs == fstart - from,
                    fe == fend - from,
                    fe - fs <= 6,
                    dp == spec_dot_pos(t, num_start(t)),
                    dp == dot - from,
                    fstart == dot + 1,
                    from + p <= dot,
                    forall|j: int|
                        num_start(t) <= j < t.len() ==> is_digit(#[trigger] t[j]) || t[j] == '.',
                    forall|j: int| dp < j < t.len() ==> #[trigger] t[j] != '.',
                    (fv as int) < pow10((m2 - fstart) as nat),
                    spec_dec_fold(t, fs, fe, 0) == spec_dec_fold(t, m2 - from, fe, fv as int),
                decreases fend - m2,
            {
                let c = cs[m2];
                proof {
                    assert(t[m2 - from] == cs@[m2 as int]);
                    assert(num_start(t) <= m2 - from < t.len());
                    assert(dp < m2 - from);
                    assert(t[m2 - from] != '.');
                    assert(is_digit(t[m2 - from]) || t[m2 - from] == '.');
                    assert(is_digit(t[m2 - from]));
                    lemma_pow10_step((m2 - fstart) as nat);
                    lemma_pow10_mono((m2 - fstart) as nat, 5nat);
                    assert(pow10(5) == 100_000) by {
                        lemma_pow10_six();
                    }
                }
                let d = digit_val_exec(c);
                fv = fv * 10 + d;
                m2 = m2 + 1;
                proof {
                    assert((fv as int) < pow10((m2 - fstart) as nat));
                }
            }
            proof {
                assert(spec_dec_fold(t, fs, fe, 0) == fv as int);
                lemma_pow10_mono((fend - fstart) as nat, 6nat);
                lemma_pow10_six();
            }
            // Scale up for any missing fraction digits.
            let missing: usize = 6 - (fend - fstart);
            let scale: u64 = pow10_exec(missing);
            proof {
                assert(missing as int == 6 - (fe - fs));
                lemma_pow10_bound(missing as nat);
                assert((fv as int) * (scale as int) < 1_000_000) by (nonlinear_arith)
                    requires
                        (fv as int) < pow10((fe - fs) as nat),
                        scale as int == pow10((6 - (fe - fs)) as nat),
                        pow10((fe - fs) as nat) * pow10((6 - (fe - fs)) as nat) == 1_000_000,
                        fv >= 0,
                        (scale as int) > 0,
                ;
            }
            fv = fv * scale;
            proof {
                assert(fv as int == spec_dec_fold(t, fs, fe, 0) * pow10((6 - (fe - fs)) as nat));
            }
        } else {
            proof {
                assert(dp == t.len() as int);
            }
        }
        let ghost spec_fv = if dp >= t.len() {
            0int
        } else {
            spec_dec_fold(t, fs, fe, 0) * pow10((6 - (fe - fs)) as nat)
        };
        proof {
            assert(fv as int == spec_fv);
            assert(fv < 1_000_000);
        }
        let mag: u64 = iv * 1_000_000 + fv;
        proof {
            assert(mag as int == iv as int * 1_000_000 + fv as int);
            assert(spec_num_units(t) == if p == 1 {
                -(mag as int)
            } else {
                mag as int
            });
        }
        if p == 1 {
            if mag > 9_223_372_036_854_775_808u64 {
                return Err(LexError { kind: LexErrorKind::NumberOutOfRange, offset: from });
            }
            let units: i64 = (-(mag as i128)) as i64;
            return Ok(SExpr::Number(Scalar { units }));
        } else {
            if mag > i64::MAX as u64 {
                return Err(LexError { kind: LexErrorKind::NumberOutOfRange, offset: from });
            }
            return Ok(SExpr::Number(Scalar { units: mag as i64 }));
        }
    }
    // A bare symbol.
    let text = s.substring_char(from, to).to_owned();
    Ok(SExpr::Symbol(SExprSymbol(text)))
}

/// `pow10` is positive.
pub proof fn lemma_pow10_pos(n: nat)
    ensures
        pow10(n) > 0,
    decreases n,
{
    if n > 0 {
        lemma_pow10_pos((n - 1) as nat);
    }
}

/// `pow10` is monotone.
pub proof fn lemma_pow10_mono(a: nat, b: nat)
    requires
        a <= b,
    ensures
        pow10(a) <= pow10(b),
    decreases b,
{
    if a < b {
        lemma_pow10_mono(a, (b - 1) as nat);
        lemma_pow10_pos((b - 1) as nat);
    }
}

/// One more digit multiplies the bound by ten.
proof fn lemma_pow10_step(n: nat)
    ensures
        pow10(n + 1) == 10 * pow10(n),
{
}

/// Splitting six digit positions splits the scale.
proof fn lemma_pow10_bound(missing: nat)
    requires
        missing <= 6,
    ensures
        pow10((6 - missing) as nat) * pow10(missing) == 1_000_000,
{
    lemma_pow10_split((6 - missing) as nat, missing);
    lemma_pow10_six();
}

/// `pow10` of a sum is the product of the parts.
proof fn lemma_pow10_split(a: nat, b: nat)
    ensures
        pow10(a + b) == pow10(a) * pow10(b),
    decreases a,
{
    if a > 0 {
        lemma_pow10_split((a - 1) as nat, b);
        assert(pow10(a + b) == 10 * pow10((a - 1) as nat + b));
        assert(10 * (pow10((a - 1) as nat) * pow10(b)) == (10 * pow10((a - 1) as nat)) * pow10(
            b,
        )) by (nonlinear_arith);
    }
}

/// The value of ten to the sixth.
proof fn lemma_pow10_six()
    ensures
        pow10(6) == 1_000_000,
{
    assert(pow10(0) == 1);
    assert(pow10(1) == 10);
    assert(pow10(2) == 100);
    assert(pow10(3) == 1_000);
    assert(pow10(4) == 10_000);
    assert(pow10(5) == 100_000);
    assert(pow10(6) == 1_000_000);
}

/// Ten to the power `e`, executable for small exponents.
fn pow10_exec(e: usize) -> (r: u64)
    requires
        e <= 6,
    ensures
        r as int == pow10(e as nat),
        r >= 1,
{
    proof {
        assert(pow10(0) == 1);
        assert(pow10(1) == 10);
        assert(pow10(2) == 100);
        assert(pow10(3) == 1_000);
        assert(pow10(4) == 10_000);
        assert(pow10(5) == 100_000);
        assert(pow10(6) == 1_000_000);
    }
    if e == 0 {
        1
    } else if e == 1 {
        10
    } else if e == 2 {
        100
    } else if e == 3 {
        1_000
    } else if e == 4 {
        10_000
    } else if e == 5 {
        100_000
    } else {
        1_000_000
    }
}

/// Parses one expression at `i`, mirroring `spec_parse_expr`.
fn take_expr(s: &str, cs: &Vec<char>, i: usize) -> (r: Result<(SExpr, usize), LexError>)
    requires
        cs@ == s@,
        i <= s@.len(),
    ensures
        match spec_parse_expr(s@, i as int) {
            Some((v, k)) => r matches Ok(p) && p.0.model() == v && p.1 == k,
            None => r is Err,
        },
    decreases s@.len() - i, 1int,
{
    let n = cs.len();
    let mut j = i;
    while j < n && is_ws_exec(cs[j])
        invariant
            cs@ == s@,
            n == cs@.len(),
            i <= j,
            j <= n,
            spec_parse_expr(s@, i as int) == spec_parse_expr(s@, j as int),
        decreases n - j,
    {
        j = j + 1;
    }
    if j >= n {
        return Err(LexError { kind: LexErrorKind::UnexpectedEnd, offset: j });
    }
    let c = cs[j];
    if c == '(' {
        match take_elems(s, cs, j + 1) {
            Ok((items, k)) => Ok((SExpr::List(SExprList(items)), k)),
            Err(e) => Err(e),
        }
    } else if c == '"' {
        let mut q = j + 1;
        while q < n && cs[q] != '"'
            invariant
                cs@ == s@,
                n == cs@.len(),
                j + 1 <= q <= n,
                spec_quote_end(s@, (j + 1) as int) == spec_quote_end(s@, q as int),
            decreases n - q,
        {
            q = q + 1;
        }
        if q >= n {
            return Err(LexError { kind: LexErrorKind::UnexpectedEnd, offset: q });
        }
        let text = s.substring_char(j + 1, q).to_owned();
        Ok((SExpr::Value(SExprValue(text)), q + 1))
    } else if is_symbol_char_exec(c) {
        let mut e = j;
        while e < n && is_symbol_char_exec(cs[e])
            invariant
                cs@ == s@,
                n == cs@.len(),
                j <= e <= n,
                spec_token_end(s@, j as int) == spec_token_end(s@, e as int),
            decreases n - e,
        {
            e = e + 1;
        }
        assert(spec_token_end(s@, j as int) == e as int);
        match lex_atom(s, cs, j, e) {
            Ok(node) => Ok((node, e)),
            Err(err) => Err(err),
        }
    } else {
        Err(LexError { kind: LexErrorKind::BadToken, offset: j })
    }
}

/// Parses the elements of an open list up to and past its `)`, mirroring
/// `spec_parse_elems`.
fn take_elems(s: &str, cs: &Vec<char>, i: usize) -> (r: Result<(Vec<SExpr>, usize), LexError>)
    requires
        cs@ == s@,
        i <= s@.len(),
    ensures
        match spec_parse_elems(s@, i as int) {
            Some((elems, end)) => r matches Ok(p) && models_of(p.0@) == elems && p.1 == end,
            None => r is Err,
        },
    decreases s@.len() - i, 2int,
{
    let n = cs.len();
    if i >= n {
        return Err(LexError { kind: LexErrorKind::UnexpectedEnd, offset: i });
    }
    if is_ws_exec(cs[i]) {
        return take_elems(s, cs, i + 1);
    }
    if cs[i] == ')' {
        let items: Vec<SExpr> = Vec::new();
        assert(models_of(items@) =~= Seq::<NodeModel>::empty());
        return Ok((items, i + 1));
    }
    let (v, k) = match take_expr(s, cs, i) {
        Ok(p) => p,
        Err(e) => {
            return Err(e);
        },
    };
    proof {
        lemma_parse_expr_advances(s@, i as int);
    }
    let (mut rest, end) = match take_elems(s, cs, k) {
        Ok(p) => p,
        Err(e) => {
            return Err(e);
        },
    };
    let ghost old_rest = rest@;
    rest.insert(0, v);
    proof {
        lemma_models_of(old_rest);
        lemma_models_of(rest@);
        assert(rest@ == old_rest.insert(0, v));
        assert forall|m: int| 0 <= m < rest@.len() implies models_of(rest@)[m] == (seq![
            v.model(),
        ] + models_of(old_rest))[m] by {
            assert(models_of(rest@)[m] == rest@[m].model());
            if m > 0 {
                assert(rest@[m] == old_rest[m - 1]);
                assert(models_of(old_rest)[m - 1] == old_rest[m - 1].model());
            } else {
                assert(rest@[0] == v);
            }
        }
        assert(models_of(rest@) =~= seq![v.model()] + models_of(old_rest));
    }
    Ok((rest, end))
}

/// Parses a whole text as a single expression with nothing but whitespace
/// around it. The root may be any node kind.
pub fn parse_expr(input: &str) -> (r: Result<SExpr, LexError>)
    ensures
        match spec_parse_text(input@) {
            Some(v) => r matches Ok(e) && e.model() == v,
            None => r is Err,
        },
{
    let cs = str_chars(input);
    let (node, k) = match take_expr(input, &cs, 0) {
        Ok(p) => p,
        Err(e) => {
            return Err(e);
        },
    };
    proof {
        lemma_parse_expr_advances(input@, 0);
    }
    let n = cs.len();
    let mut j = k;
    while j < n && is_ws_exec(cs[j])
        invariant
            cs@ == input@,
            n == cs@.len(),
            k <= j <= n,
            spec_all_ws(input@, k as int) == spec_all_ws(input@, j as int),
        decreases n - j,
    {
        j = j + 1;
    }
    if j < n {
        assert(!spec_all_ws(input@, k as int));
        return Err(LexError { kind: LexErrorKind::TrailingInput, offset: j });
    }
    assert(spec_all_ws(input@, k as int));
    Ok(node)
}

/// Parses a whole text whose root must be a list: the grammar's entry point
/// for board files.
pub fn parse_sexpr(input: &str) -> (r: Result<SExprList, LexError>)
    ensures
        match spec_parse_root(input@) {
            Some(elems) => r matches Ok(l) && models_of(l.0@) == elems,
            None => r is Err,
        },
{
    match parse_expr(input) {
        Ok(SExpr::List(l)) => Ok(l),
        Ok(_) => Err(LexError { kind: LexErrorKind::RootNotList, offset: 0 }),
        Err(e) => Err(e),
    }
}

/// The end of the maximal run of hexadecimal digits and `_` separators
/// starting at `i`.
pub open spec fn spec_hex_end(s: Seq<char>, i: int) -> int
    decreases s.len() - i,
{
    if 0 <= i < s.len() && (is_hex_digit(s[i]) || s[i] == '_') {
        spec_hex_end(s, i + 1)
    } else {
        i
    }
}

/// Whether a text begins with a well-formed hexadecimal token: `0x`, then
/// digits or separators of which at least one is a digit, with a value that
/// fits 64 bits.
pub open spec fn spec_hex_prefix_ok(s: Seq<char>) -> bool {
    &&& s.len() >= 3
    &&& s[0] == '0'
    &&& s[1] == 'x'
    &&& spec_hex_end(s, 2) > 2
    &&& (exists|j: int| 2 <= j < spec_hex_end(s, 2) && is_hex_digit(#[trigger] s[j]))
    &&& spec_hex_fold(s.subrange(2, spec_hex_end(s, 2)), 0, 0) <= u64::MAX
}

/// Reads a hexadecimal token from the front of a text and returns the rest
/// of the text beside the value.
pub fn hexadecimal(s: &str) -> (r: Result<(String, u64), LexError>)
    ensures
        spec_hex_prefix_ok(s@) ==> (r matches Ok(p) && p.0@ == s@.subrange(
            spec_hex_end(s@, 2),
            s@.len() as int,
        ) && p.1 as int == spec_hex_fold(s@.subrange(2, spec_hex_end(s@, 2)), 0, 0)),
        !spec_hex_prefix_ok(s@) ==> r is Err,
{
    let cs = str_chars(s);
    let n = cs.len();
    if n < 3 || cs[0] != '0' || cs[1] != 'x' {
        return Err(LexError { kind: LexErrorKind::BadToken, offset: 0 });
    }
    let mut e: usize = 2;
    let mut has_digit = false;
    while e < n && (is_hex_digit_exec(cs[e]) || cs[e] == '_')
        invariant
            cs@ == s@,
            n == cs@.len(),
            2 <= e <= n,
            spec_hex_end(s@, 2) == spec_hex_end(s@, e as int),
            has_digit == (exists|j: int| 2 <= j < e && is_hex_digit(#[trigger] s@[j])),
            forall|j: int| 2 <= j < e ==> is_hex_digit(#[trigger] s@[j]) || s@[j] == '_',
        decreases n - e,
    {
        if is_hex_digit_exec(cs[e]) {
            has_digit = true;
        }
        e = e + 1;
    }
    assert(spec_hex_end(s@, 2) == e as int);
    if e == 2 || !has_digit {
        return Err(LexError { kind: LexErrorKind::BadToken, offset: e });
    }
    let ghost t = s@.subrange(2, e as int);
    proof {
        assert forall|j: int| 0 <= j < t.len() implies #[trigger] t[j] == s@[2 + j] by {}
        let jj = choose|j: int| 2 <= j < e && is_hex_digit(#[trigger] s@[j]);
        assert(t[jj - 2] == s@[jj]);
        assert(exists|j: int| 0 <= j < t.len() && is_hex_digit(#[trigger] t[j]));
    }
    let mut acc: u64 = 0;
    let mut m: usize = 2;
    while m < e
        invariant
            cs@ == s@,
            n == cs@.len(),
            2 <= m <= e <= n,
            t == s@.subrange(2, e as int),
            t.len() == e - 2,
            e as int == spec_hex_end(s@, 2),
            (exists|j: int| 0 <= j < t.len() && is_hex_digit(#[trigger] t[j])),
            s@.len() >= 3 && s@[0] == '0' && s@[1] == 'x',
            forall|j: int| 0 <= j < t.len() ==> is_hex_digit(#[trigger] t[j]) || t[j] == '_',
            spec_hex_fold(t, 0, 0) == spec_hex_fold(t, m - 2, acc as int),
        decreases e - m,
    {
        let c = cs[m];
        proof {
            assert(t[m - 2] == s@[m as int]);
        }
        if c != '_' {
            let d = hex_digit_val_exec(c);
            if acc > (u64::MAX - d) / 16 {
                proof {
                    assert(acc as int * 16 + d as int > u64::MAX as int);
                    lemma_hex_fold_ge(t, m - 2 + 1, acc as int * 16 + d as int);
                    assert(spec_hex_fold(t, 0, 0) > u64::MAX as int);
                }
                return Err(LexError { kind: LexErrorKind::HexOutOfRange, offset: m });
            }
            acc = acc * 16 + d;
        }
        m = m + 1;
    }
    assert(spec_hex_fold(t, 0, 0) == acc as int);
    let rest = s.substring_char(e, n).to_owned();
    Ok((rest, acc))
}

} // verus!
