//! The sequential cursor over one list's children: ordered extraction from
//! the front, lookahead of a leading tag, bulk discard, and an emptiness
//! guard. Every operation's effect is stated over the list's node sequence.

use vstd::prelude::*;

verus! {

use crate::parser::ParserError;
use crate::scalar::{clamp_i32, clamp_u32, clamp_u64, clamp_u8, sat_i64, trunc_mm, Scalar};
use crate::sexpr::{NodeModel, SExpr, SExprList, SExprSymbol, SExprValue};

/// The unit count a node names when read as a length: a decimal number's
/// own units, or a hexadecimal value taken as whole millimeters, clamped
/// into range.
pub open spec fn spec_scalar_of(m: NodeModel) -> Option<int> {
    match m {
        NodeModel::Number(units) => Some(units),
        NodeModel::Hex(h) => Some(sat_i64(h * 1_000_000)),
        _ => None,
    }
}

/// The `u32` a node names: a number's whole millimeters or a hexadecimal
/// value, truncated toward zero and clamped into range.
pub open spec fn spec_u32_of(m: NodeModel) -> Option<int> {
    match m {
        NodeModel::Number(units) => Some(clamp_u32(trunc_mm(units))),
        NodeModel::Hex(h) => Some(clamp_u32(h as int)),
        _ => None,
    }
}

/// The `u64` a node names, by the same reading as `spec_u32_of`.
pub open spec fn spec_u64_of(m: NodeModel) -> Option<int> {
    match m {
        NodeModel::Number(units) => Some(clamp_u64(trunc_mm(units))),
        NodeModel::Hex(h) => Some(h as int),
        _ => None,
    }
}

/// The `u8` a node names, by the same reading as `spec_u32_of`.
pub open spec fn spec_u8_of(m: NodeModel) -> Option<int> {
    match m {
        NodeModel::Number(units) => Some(clamp_u8(trunc_mm(units))),
        NodeModel::Hex(h) => Some(clamp_u8(h as int)),
        _ => None,
    }
}

/// The `i32` a node names, by the same reading as `spec_u32_of`.
pub open spec fn spec_i32_of(m: NodeModel) -> Option<int> {
    match m {
        NodeModel::Number(units) => Some(clamp_i32(trunc_mm(units))),
        NodeModel::Hex(h) => Some(clamp_i32(h as int)),
        _ => None,
    }
}

impl SExprList {
    /// The number of children still in the cursor.
    pub fn len(&self) -> (r: usize)
        ensures
            r == self.0@.len(),
    {
        self.0.len()
    }

    /// A look at the front child without consuming it.
    pub fn peek_maybe(&self) -> (r: Option<&SExpr>)
        ensures
            self.0@.len() == 0 ==> r is None,
            self.0@.len() > 0 ==> (r matches Some(e) && *e == self.0@[0]),
    {
        if self.0.len() == 0 {
            None
        } else {
            Some(&self.0[0])
        }
    }

    /// The front child, or an end-of-list error.
    pub fn peek(&self) -> (r: Result<&SExpr, ParserError>)
        ensures
            self.0@.len() == 0 ==> r is Err,
            self.0@.len() > 0 ==> (r matches Ok(e) && *e == self.0@[0]),
    {
        if self.0.len() == 0 {
            Err(ParserError::UnexpectedEnd)
        } else {
            Ok(&self.0[0])
        }
    }

    /// The front child's symbol text without consuming it: absent on an
    /// empty cursor, an error when the front child is no symbol.
    pub fn peek_name_maybe(&self) -> (r: Result<Option<&str>, ParserError>)
        ensures
            self.0@.len() == 0 ==> (r matches Ok(o) && o is None),
            self.0@.len() > 0 ==> match self.0@[0] {
                SExpr::Symbol(sym) => r matches Ok(o) && (o matches Some(name) && name@ == sym.0@),
                _ => r is Err,
            },
    {
        if self.0.len() == 0 {
            return Ok(None);
        }
        match &self.0[0] {
            SExpr::Symbol(sym) => Ok(Some(sym.as_str())),
            _ => Err(ParserError::UnexpectedSExpr { expected: String::from_str("symbol") }),
        }
    }

    /// The front child's symbol text without consuming it; an error on an
    /// empty cursor or a non-symbol front child.
    pub fn peek_name(&self) -> (r: Result<&str, ParserError>)
        ensures
            self.0@.len() == 0 ==> r is Err,
            self.0@.len() > 0 ==> match self.0@[0] {
                SExpr::Symbol(sym) => r matches Ok(name) && name@ == sym.0@,
                _ => r is Err,
            },
    {
        if self.0.len() == 0 {
            return Err(ParserError::UnexpectedEnd);
        }
        match &self.0[0] {
            SExpr::Symbol(sym) => Ok(sym.as_str()),
            _ => Err(ParserError::UnexpectedSExpr { expected: String::from_str("symbol") }),
        }
    }

    /// Removes the first `amount` children; an end-of-list error when fewer
    /// remain, leaving the cursor unchanged.
    pub fn discard(&mut self, amount: usize) -> (r: Result<(), ParserError>)
        ensures
            amount <= old(self).0@.len() ==> (r is Ok && final(self).0@ == old(self).0@.subrange(
                amount as int,
                old(self).0@.len() as int,
            )),
            amount > old(self).0@.len() ==> (r is Err && *final(self) == *old(self)),
    {
        if amount > self.0.len() {
            return Err(ParserError::UnexpectedEnd);
        }
        let mut i: usize = 0;
        while i < amount
            invariant
                i <= amount,
                amount <= old(self).0@.len(),
                self.0@ == old(self).0@.subrange(i as int, old(self).0@.len() as int),
            decreases amount - i,
        {
            self.0.remove(0);
            proof {
                assert(self.0@ =~= old(self).0@.subrange(
                    (i + 1) as int,
                    old(self).0@.len() as int,
                ));
            }
            i = i + 1;
        }
        Ok(())
    }

    /// Pops the front child, or nothing when the cursor is empty.
    pub fn next_maybe(&mut self) -> (r: Option<SExpr>)
        ensures
            old(self).0@.len() == 0 ==> (r is None && *final(self) == *old(self)),
            old(self).0@.len() > 0 ==> (r matches Some(e) && e == old(self).0@[0] && final(self).0@ == old(self).0@.drop_first()),
    {
        if self.0.len() == 0 {
            None
        } else {
            let e = self.0.remove(0);
            proof {
                assert(self.0@ =~= old(self).0@.drop_first());
            }
            Some(e)
        }
    }

    /// Pops the front child, or an end-of-list error.
    pub fn next_any(&mut self) -> (r: Result<SExpr, ParserError>)
        ensures
            old(self).0@.len() == 0 ==> (r is Err && *final(self) == *old(self)),
            old(self).0@.len() > 0 ==> (r matches Ok(e) && e == old(self).0@[0] && final(self).0@
                == old(self).0@.drop_first()),
    {
        match self.next_maybe() {
            Some(e) => Ok(e),
            None => Err(ParserError::UnexpectedEnd),
        }
    }

    /// Pops the front child as a symbol; the child is consumed even when it
    /// is of the wrong kind.
    pub fn next_symbol(&mut self) -> (r: Result<SExprSymbol, ParserError>)
        ensures
            old(self).0@.len() == 0 ==> (r is Err && *final(self) == *old(self)),
            old(self).0@.len() > 0 ==> final(self).0@ == old(self).0@.drop_first() && match old(self).0@[0] {
                SExpr::Symbol(sym) => r matches Ok(got) && got == sym,
                _ => r is Err,
            },
    {
        match self.next_any() {
            Ok(SExpr::Symbol(sym)) => Ok(sym),
            Ok(_) => Err(ParserError::UnexpectedSExpr { expected: String::from_str("symbol") }),
            Err(e) => Err(e),
        }
    }

    /// Pops the front child as a nested list.
    pub fn next_list(&mut self) -> (r: Result<SExprList, ParserError>)
        ensures
            old(self).0@.len() == 0 ==> (r is Err && *final(self) == *old(self)),
            old(self).0@.len() > 0 ==> final(self).0@ == old(self).0@.drop_first() && match old(self).0@[0] {
                SExpr::List(l) => r matches Ok(got) && got == l,
                _ => r is Err,
            },
    {
        match self.next_any() {
            Ok(SExpr::List(l)) => Ok(l),
            Ok(_) => Err(ParserError::UnexpectedSExpr { expected: String::from_str("list") }),
            Err(e) => Err(e),
        }
    }

    /// Pops the front child as a quoted value.
    pub fn next_value(&mut self) -> (r: Result<SExprValue, ParserError>)
        ensures
            old(self).0@.len() == 0 ==> (r is Err && *final(self) == *old(self)),
            old(self).0@.len() > 0 ==> final(self).0@ == old(self).0@.drop_first() && match old(self).0@[0] {
                SExpr::Value(v) => r matches Ok(got) && got == v,
                _ => r is Err,
            },
    {
        match self.next_any() {
            Ok(SExpr::Value(v)) => Ok(v),
            Ok(_) => Err(
                ParserError::UnexpectedSExpr { expected: String::from_str("quoted value") },
            ),
            Err(e) => Err(e),
        }
    }

    /// Pops the front child as a quoted value's text.
    pub fn next_string(&mut self) -> (r: Result<String, ParserError>)
        ensures
            old(self).0@.len() == 0 ==> (r is Err && *final(self) == *old(self)),
            old(self).0@.len() > 0 ==> final(self).0@ == old(self).0@.drop_first() && match old(self).0@[0] {
                SExpr::Value(v) => r matches Ok(got) && got@ == v.0@,
                _ => r is Err,
            },
    {
        match self.next_value() {
            Ok(v) => Ok(v.0),
            Err(e) => Err(e),
        }
    }

    /// Pops the front child as a length, by the reading of `spec_scalar_of`.
    pub fn next_scalar(&mut self) -> (r: Result<Scalar, ParserError>)
        ensures
            old(self).0@.len() == 0 ==> (r is Err && *final(self) == *old(self)),
            old(self).0@.len() > 0 ==> final(self).0@ == old(self).0@.drop_first() && match
                spec_scalar_of(old(self).0@[0].model()) {
                Some(units) => r matches Ok(got) && got.as_int() == units,
                None => r is Err,
            },
    {
        match self.next_any() {
            Ok(SExpr::Number(n)) => Ok(n),
            Ok(SExpr::Hex(h)) => {
                if h > (i64::MAX / 1_000_000) as u64 {
                    Ok(Scalar { units: i64::MAX })
                } else {
                    Ok(Scalar { units: (h as i64) * 1_000_000 })
                }
            },
            Ok(_) => Err(ParserError::UnexpectedSExpr { expected: String::from_str("number") }),
            Err(e) => Err(e),
        }
    }

    /// Pops the front child as a `u32`, by the reading of `spec_u32_of`.
    pub fn next_u32(&mut self) -> (r: Result<u32, ParserError>)
        ensures
            old(self).0@.len() == 0 ==> (r is Err && *final(self) == *old(self)),
            old(self).0@.len() > 0 ==> final(self).0@ == old(self).0@.drop_first() && match
                spec_u32_of(old(self).0@[0].model()) {
                Some(v) => r matches Ok(got) && got as int == v,
                None => r is Err,
            },
    {
        match self.next_any() {
            Ok(SExpr::Number(n)) => Ok(n.to_u32()),
            Ok(SExpr::Hex(h)) => {
                if h > u32::MAX as u64 {
                    Ok(u32::MAX)
                } else {
                    Ok(h as u32)
                }
            },
            Ok(_) => Err(ParserError::UnexpectedSExpr { expected: String::from_str("number") }),
            Err(e) => Err(e),
        }
    }

    /// Pops the front child as a `u64`, by the reading of `spec_u64_of`.
    pub fn next_u64(&mut self) -> (r: Result<u64, ParserError>)
        ensures
            old(self).0@.len() == 0 ==> (r is Err && *final(self) == *old(self)),
            old(self).0@.len() > 0 ==> final(self).0@ == old(self).0@.drop_first() && match
                spec_u64_of(old(self).0@[0].model()) {
                Some(v) => r matches Ok(got) && got as int == v,
                None => r is Err,
            },
    {
        match self.next_any() {
            Ok(SExpr::Number(n)) => Ok(n.to_u64()),
            Ok(SExpr::Hex(h)) => Ok(h),
            Ok(_) => Err(ParserError::UnexpectedSExpr { expected: String::from_str("number") }),
            Err(e) => Err(e),
        }
    }

    /// Pops the front child as a `u8`, by the reading of `spec_u8_of`.
    pub fn next_u8(&mut self) -> (r: Result<u8, ParserError>)
        ensures
            old(self).0@.len() == 0 ==> (r is Err && *final(self) == *old(self)),
            old(self).0@.len() > 0 ==> final(self).0@ == old(self).0@.drop_first() && match
                spec_u8_of(old(self).0@[0].model()) {
                Some(v) => r matches Ok(got) && got as int == v,
                None => r is Err,
            },
    {
        match self.next_any() {
            Ok(SExpr::Number(n)) => Ok(n.to_u8()),
            Ok(SExpr::Hex(h)) => {
                if h > u8::MAX as u64 {
                    Ok(u8::MAX)
                } else {
                    Ok(h as u8)
                }
            },
            Ok(_) => Err(ParserError::UnexpectedSExpr { expected: String::from_str("number") }),
            Err(e) => Err(e),
        }
    }

    /// Pops the front child as an `i32`, by the reading of `spec_i32_of`.
    pub fn next_i32(&mut self) -> (r: Result<i32, ParserError>)
        ensures
            old(self).0@.len() == 0 ==> (r is Err && *final(self) == *old(self)),
            old(self).0@.len() > 0 ==> final(self).0@ == old(self).0@.drop_first() && match
                spec_i32_of(old(self).0@[0].model()) {
                Some(v) => r matches Ok(got) && got as int == v,
                None => r is Err,
            },
    {
        match self.next_any() {
            Ok(SExpr::Number(n)) => Ok(n.to_i32()),
            Ok(SExpr::Hex(h)) => {
                if h > i32::MAX as u64 {
                    Ok(i32::MAX)
                } else {
                    Ok(h as i32)
                }
            },
            Ok(_) => Err(ParserError::UnexpectedSExpr { expected: String::from_str("number") }),
            Err(e) => Err(e),
        }
    }

    /// Pops the front child as a nested list, or nothing when the cursor is
    /// already empty.
    pub fn next_maybe_list(&mut self) -> (r: Result<Option<SExprList>, ParserError>)
        ensures
            old(self).0@.len() == 0 ==> (r matches Ok(o) && o is None && *final(self) == *old(self)),
            old(self).0@.len() > 0 ==> final(self).0@ == old(self).0@.drop_first() && match old(self).0@[0] {
                SExpr::List(l) => r matches Ok(o) && (o matches Some(got) && got == l),
                _ => r is Err,
            },
    {
        if self.0.len() == 0 {
            return Ok(None);
        }
        match self.next_list() {
            Ok(l) => Ok(Some(l)),
            Err(e) => Err(e),
        }
    }

    /// Pops the front child as a symbol, or nothing when the cursor is
    /// already empty.
    pub fn next_maybe_symbol(&mut self) -> (r: Result<Option<SExprSymbol>, ParserError>)
        ensures
            old(self).0@.len() == 0 ==> (r matches Ok(o) && o is None && *final(self) == *old(self)),
            old(self).0@.len() > 0 ==> final(self).0@ == old(self).0@.drop_first() && match old(self).0@[0] {
                SExpr::Symbol(sym) => r matches Ok(o) && (o matches Some(got) && got == sym),
                _ => r is Err,
            },
    {
        if self.0.len() == 0 {
            return Ok(None);
        }
        match self.next_symbol() {
            Ok(sym) => Ok(Some(sym)),
            Err(e) => Err(e),
        }
    }

    /// Pops the front child as a length, or nothing when the cursor is
    /// already empty.
    pub fn next_maybe_scalar(&mut self) -> (r: Result<Option<Scalar>, ParserError>)
        ensures
            old(self).0@.len() == 0 ==> (r matches Ok(o) && o is None && *final(self) == *old(self)),
            old(self).0@.len() > 0 ==> final(self).0@ == old(self).0@.drop_first() && match
                spec_scalar_of(old(self).0@[0].model()) {
                Some(units) => r matches Ok(o) && (o matches Some(got) && got.as_int() == units),
                None => r is Err,
            },
    {
        if self.0.len() == 0 {
            return Ok(None);
        }
        match self.next_scalar() {
            Ok(v) => Ok(Some(v)),
            Err(e) => Err(e),
        }
    }

    /// Pops the front child as a quoted value's text, or nothing when the
    /// cursor is already empty.
    pub fn next_maybe_string(&mut self) -> (r: Result<Option<String>, ParserError>)
        ensures
            old(self).0@.len() == 0 ==> (r matches Ok(o) && o is None && *final(self) == *old(self)),
            old(self).0@.len() > 0 ==> final(self).0@ == old(self).0@.drop_first() && match old(self).0@[0] {
                SExpr::Value(v) => r matches Ok(o) && (o matches Some(got) && got@ == v.0@),
                _ => r is Err,
            },
    {
        if self.0.len() == 0 {
            return Ok(None);
        }
        match self.next_string() {
            Ok(v) => Ok(Some(v)),
            Err(e) => Err(e),
        }
    }

    /// Succeeds only when no children remain; the structural guard against
    /// silently dropping trailing fields.
    pub fn expect_end(&self) -> (r: Result<(), ParserError>)
        ensures
            r is Ok <==> self.0@.len() == 0,
    {
        if self.0.len() == 0 {
            Ok(())
        } else {
            Err(ParserError::UnexpectedLeftover)
        }
    }

    /// This cursor's remaining children as a single list node.
    pub fn as_sexpr(self) -> (r: SExpr)
        ensures
            r == SExpr::List(self),
    {
        SExpr::List(self)
    }
}

} // verus!
