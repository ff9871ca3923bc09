//! The generic s-expression tree: an ordered tree of lists and atoms, with
//! no knowledge of board semantics, together with a ghost model of such
//! trees and a sequential cursor over one list's children.

use vstd::prelude::*;

pub mod cursor;
pub mod parse_sexpr;

pub use parse_sexpr::parse_sexpr;
pub use parse_sexpr::parse_expr;
pub use parse_sexpr::hexadecimal;

verus! {

use crate::parser::ParserError;
use crate::scalar::Scalar;

/// A bare identifier token, used both as data and as a dispatch tag.
#[derive(Debug, Clone)]
pub struct SExprSymbol(pub String);

/// A quoted string token.
#[derive(Debug, Clone)]
pub struct SExprValue(pub String);

/// One node of the generic tree.
#[derive(Debug)]
pub enum SExpr {
    /// An ordered sequence of child nodes.
    List(SExprList),
    /// A bare identifier.
    Symbol(SExprSymbol),
    /// A quoted string.
    Value(SExprValue),
    /// A decimal number, held exactly in millionths of a millimeter.
    Number(Scalar),
    /// An unsigned 64-bit value written as `0x...`.
    Hex(u64),
}

/// An ordered sequence of nodes; also the sequential cursor over one list's
/// children, consumed from the front.
#[derive(Debug)]
pub struct SExprList(pub Vec<SExpr>);

/// The mathematical shape of a tree node: strings as character sequences,
/// numbers as unbounded integers.
pub enum NodeModel {
    List(Seq<NodeModel>),
    Symbol(Seq<char>),
    Value(Seq<char>),
    /// The unit count of a decimal number.
    Number(int),
    Hex(u64),
}

impl SExpr {
    /// The ghost model of this node.
    pub open spec fn model(self) -> NodeModel
        decreases self,
    {
        match self {
            SExpr::List(l) => NodeModel::List(models_of(l.0@)),
            SExpr::Symbol(s) => NodeModel::Symbol(s.0@),
            SExpr::Value(v) => NodeModel::Value(v.0@),
            SExpr::Number(n) => NodeModel::Number(n.as_int()),
            SExpr::Hex(h) => NodeModel::Hex(h),
        }
    }
}

/// The ghost models of a sequence of nodes, in order.
pub open spec fn models_of(s: Seq<SExpr>) -> Seq<NodeModel>
    decreases s,
{
    if s.len() == 0 {
        Seq::empty()
    } else {
        seq![s[0].model()] + models_of(s.drop_first())
    }
}

/// `models_of` maps the sequence element by element.
pub proof fn lemma_models_of(s: Seq<SExpr>)
    ensures
        models_of(s).len() == s.len(),
        forall|i: int| 0 <= i < s.len() ==> #[trigger] models_of(s)[i] == s[i].model(),
    decreases s.len(),
{
    if s.len() > 0 {
        lemma_models_of(s.drop_first());
        assert forall|i: int| 0 <= i < s.len() implies #[trigger] models_of(s)[i] == s[i].model() by {
            if i > 0 {
                assert(s.drop_first()[i - 1] == s[i]);
                assert(models_of(s.drop_first())[i - 1] == s.drop_first()[i - 1].model());
            }
        }
    }
}

impl SExpr {
    /// This node as a list, or a structural error if it is an atom.
    pub fn as_list(self) -> (r: Result<SExprList, ParserError>)
        ensures
            self.model() matches NodeModel::List(elems) ==> (r matches Ok(l)
                && models_of(l.0@) == elems),
            !(self.model() is List) ==> r is Err,
    {
        match self {
            SExpr::List(l) => Ok(l),
            _ => Err(ParserError::UnexpectedSExpr { expected: String::from_str("list") }),
        }
    }
}

impl SExprSymbol {
    /// The symbol's text.
    pub fn as_str(&self) -> (r: &str)
        ensures
            r@ == self.0@,
    {
        self.0.as_str()
    }
}

impl SExprValue {
    /// The quoted string's payload.
    pub fn as_str(&self) -> (r: &str)
        ensures
            r@ == self.0@,
    {
        self.0.as_str()
    }
}

impl vstd::std_specs::cmp::PartialEqSpecImpl for SExprSymbol {
    open spec fn obeys_eq_spec() -> bool {
        true
    }

    open spec fn eq_spec(&self, other: &SExprSymbol) -> bool {
        self.0@ == other.0@
    }
}

impl PartialEq for SExprSymbol {
    fn eq(&self, other: &SExprSymbol) -> (r: bool) {
        str_eq(self.0.as_str(), other.0.as_str())
    }
}

impl vstd::std_specs::cmp::PartialEqSpecImpl for SExprValue {
    open spec fn obeys_eq_spec() -> bool {
        true
    }

    open spec fn eq_spec(&self, other: &SExprValue) -> bool {
        self.0@ == other.0@
    }
}

impl PartialEq for SExprValue {
    fn eq(&self, other: &SExprValue) -> (r: bool) {
        str_eq(self.0.as_str(), other.0.as_str())
    }
}

impl vstd::std_specs::cmp::PartialEqSpecImpl for SExpr {
    open spec fn obeys_eq_spec() -> bool {
        true
    }

    open spec fn eq_spec(&self, other: &SExpr) -> bool {
        self.model() == other.model()
    }
}

impl PartialEq for SExpr {
    fn eq(&self, other: &SExpr) -> (r: bool) {
        sexpr_eq(self, other)
    }
}

/// Structural equality of two nodes, decided by their models.
pub fn sexpr_eq(x: &SExpr, y: &SExpr) -> (r: bool)
    ensures
        r == (x.model() == y.model()),
    decreases x,
{
    match (x, y) {
        (SExpr::List(a), SExpr::List(b)) => sexpr_vec_eq(&a.0, &b.0),
        (SExpr::Symbol(a), SExpr::Symbol(b)) => str_eq(a.0.as_str(), b.0.as_str()),
        (SExpr::Value(a), SExpr::Value(b)) => str_eq(a.0.as_str(), b.0.as_str()),
        (SExpr::Number(a), SExpr::Number(b)) => a.units == b.units,
        (SExpr::Hex(a), SExpr::Hex(b)) => *a == *b,
        _ => false,
    }
}

impl vstd::std_specs::cmp::PartialEqSpecImpl for SExprList {
    open spec fn obeys_eq_spec() -> bool {
        true
    }

    open spec fn eq_spec(&self, other: &SExprList) -> bool {
        models_of(self.0@) == models_of(other.0@)
    }
}

impl PartialEq for SExprList {
    fn eq(&self, other: &SExprList) -> (r: bool) {
        sexpr_vec_eq(&self.0, &other.0)
    }
}

/// Element-by-element comparison of two node sequences, by their models.
fn sexpr_vec_eq(a: &Vec<SExpr>, b: &Vec<SExpr>) -> (r: bool)
    ensures
        r == (models_of(a@) == models_of(b@)),
    decreases a,
{
    proof {
        lemma_models_of(a@);
        lemma_models_of(b@);
    }
    if a.len() != b.len() {
        return false;
    }
    let n = a.len();
    let mut i: usize = 0;
    while i < n
        invariant
            n == a@.len(),
            n == b@.len(),
            i <= n,
            forall|j: int| 0 <= j < i ==> a@[j].model() == b@[j].model(),
        decreases n - i,
    {
        let same = sexpr_eq(&a[i], &b[i]);
        if !same {
            proof {
                lemma_models_of(a@);
                lemma_models_of(b@);
                assert(models_of(a@)[i as int] == a@[i as int].model());
                assert(models_of(b@)[i as int] == b@[i as int].model());
                assert(models_of(a@)[i as int] != models_of(b@)[i as int]);
            }
            return false;
        }
        i = i + 1;
    }
    proof {
        lemma_models_of(a@);
        lemma_models_of(b@);
        assert forall|j: int| 0 <= j < n implies models_of(a@)[j] == models_of(b@)[j] by {
            assert(models_of(a@)[j] == a@[j].model());
            assert(models_of(b@)[j] == b@[j].model());
        }
        assert(models_of(a@) =~= models_of(b@));
    }
    true
}

/// A left fold over a node sequence that may reject a node: the shared
/// shape of every tolerant field loop in the typed layer.
pub open spec fn spec_fold<A>(acc: A, es: Seq<NodeModel>, step: spec_fn(A, NodeModel) -> Option<A>) -> Option<A>
    decreases es.len(),
{
    if es.len() == 0 {
        Some(acc)
    } else {
        match step(acc, es[0]) {
            Some(a) => spec_fold(a, es.drop_first(), step),
            None => None,
        }
    }
}

/// The leading tag of a list node, when it has one.
pub open spec fn spec_tag_of(m: NodeModel) -> Option<Seq<char>> {
    match m {
        NodeModel::List(es) => {
            if es.len() > 0 {
                match es[0] {
                    NodeModel::Symbol(tag) => Some(tag),
                    _ => None,
                }
            } else {
                None
            }
        },
        _ => None,
    }
}

/// Whether `t` ends with `suffix`.
pub open spec fn spec_ends_with(t: Seq<char>, suffix: Seq<char>) -> bool {
    t.len() >= suffix.len() && t.subrange(t.len() - suffix.len(), t.len() as int) == suffix
}

/// Whether `t` starts with `prefix`.
pub open spec fn spec_starts_with(t: Seq<char>, prefix: Seq<char>) -> bool {
    t.len() >= prefix.len() && t.subrange(0, prefix.len() as int) == prefix
}

/// Whether a string ends with a suffix, proved against the views.
pub fn str_ends_with(s: &str, suffix: &str) -> (r: bool)
    ensures
        r == spec_ends_with(s@, suffix@),
{
    let n = s.unicode_len();
    let m = suffix.unicode_len();
    if n < m {
        return false;
    }
    let mut i: usize = 0;
    while i < m
        invariant
            n == s@.len(),
            m == suffix@.len(),
            m <= n,
            i <= m,
            forall|j: int| 0 <= j < i ==> s@[n - m + j] == suffix@[j],
        decreases m - i,
    {
        if s.get_char(n - m + i) != suffix.get_char(i) {
            assert(s@.subrange(n as int - m as int, n as int)[i as int] != suffix@[i as int]);
            return false;
        }
        i = i + 1;
    }
    proof {
        assert forall|j: int| 0 <= j < m implies s@.subrange(n as int - m as int, n as int)[j]
            == suffix@[j] by {}
        assert(s@.subrange(n as int - m as int, n as int) =~= suffix@);
    }
    true
}

/// Whether a string starts with a prefix, proved against the views.
pub fn str_starts_with(s: &str, prefix: &str) -> (r: bool)
    ensures
        r == spec_starts_with(s@, prefix@),
{
    let n = s.unicode_len();
    let m = prefix.unicode_len();
    if n < m {
        return false;
    }
    let mut i: usize = 0;
    while i < m
        invariant
            n == s@.len(),
            m == prefix@.len(),
            m <= n,
            i <= m,
            forall|j: int| 0 <= j < i ==> s@[j] == prefix@[j],
        decreases m - i,
    {
        if s.get_char(i) != prefix.get_char(i) {
            assert(s@.subrange(0, m as int)[i as int] != prefix@[i as int]);
            return false;
        }
        i = i + 1;
    }
    proof {
        assert forall|j: int| 0 <= j < m implies s@.subrange(0, m as int)[j] == prefix@[j] by {}
        assert(s@.subrange(0, m as int) =~= prefix@);
    }
    true
}

/// Character-by-character string equality, proved against the views.
pub fn str_eq(a: &str, b: &str) -> (r: bool)
    ensures
        r == (a@ == b@),
{
    let an = a.unicode_len();
    let bn = b.unicode_len();
    if an != bn {
        assert(a@ != b@);
        return false;
    }
    let mut i: usize = 0;
    while i < an
        invariant
            an == a@.len(),
            an == b@.len(),
            i <= an,
            forall|j: int| 0 <= j < i ==> a@[j] == b@[j],
        decreases an - i,
    {
        if a.get_char(i) != b.get_char(i) {
            assert(a@ != b@);
            return false;
        }
        i = i + 1;
    }
    proof {
        assert(a@ =~= b@);
    }
    true
}

} // verus!
