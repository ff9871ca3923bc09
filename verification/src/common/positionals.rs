//! Positions, points, point lists, and axis-aligned bounding boxes.

use vstd::prelude::*;

verus! {

use crate::parser::ParserError;
use crate::scalar::{sat_i64, Scalar};
use crate::sexpr::cursor::spec_scalar_of;
use crate::sexpr::{lemma_models_of, models_of, NodeModel, SExpr, SExprList};

/// The smaller of two signed unit counts.
pub open spec fn min_i64(a: i64, b: i64) -> i64 {
    if a <= b {
        a
    } else {
        b
    }
}

/// The larger of two signed unit counts.
pub open spec fn max_i64(a: i64, b: i64) -> i64 {
    if a >= b {
        a
    } else {
        b
    }
}

/// A position: X and Y coordinates with an optional rotation angle.
///
/// The angle is held in millionths of a degree, by the same fixed-point
/// reading as lengths.
#[derive(Clone, Copy, Debug, PartialEq, Eq, Structural)]
pub struct Position {
    /// X coordinate.
    pub x: Scalar,
    /// Y coordinate.
    pub y: Scalar,
    /// Optional rotation angle in degrees.
    pub angle: Option<Scalar>,
}

/// A coordinate point for use in point lists.
#[derive(Clone, Copy, Debug, PartialEq, Eq, Structural)]
pub struct Point {
    /// X coordinate.
    pub x: Scalar,
    /// Y coordinate.
    pub y: Scalar,
}

/// An ordered list of coordinate points.
#[derive(Clone, Debug, PartialEq)]
pub struct PointList(pub Vec<Point>);

/// A width and height pair.
#[derive(Clone, Copy, Debug, PartialEq, Eq, Structural)]
pub struct Size {
    pub width: Scalar,
    pub height: Scalar,
}

/// An axis-aligned bounding box in board space. The identity value has its
/// minima at the largest and its maxima at the smallest representable
/// coordinate; a box is degenerate until something is enveloped into it.
#[derive(Clone, Copy, Debug, PartialEq, Eq, Structural)]
pub struct BoundingBox {
    pub min_x: Scalar,
    pub min_y: Scalar,
    pub max_x: Scalar,
    pub max_y: Scalar,
}

/// A shape that exposes an axis-aligned bounding box.
pub trait GetBoundingBox {
    /// The box this shape spans, as a mathematical value.
    spec fn spec_bounding_box(&self) -> BoundingBox;

    /// The box this shape spans.
    fn bounding_box(&self) -> (r: BoundingBox)
        ensures
            r == self.spec_bounding_box(),
    ;
}

/// The identity value of `envelop`: minima at `i64::MAX`, maxima at
/// `i64::MIN` units.
pub open spec fn spec_empty_box() -> BoundingBox {
    BoundingBox {
        min_x: Scalar { units: i64::MAX },
        min_y: Scalar { units: i64::MAX },
        max_x: Scalar { units: i64::MIN },
        max_y: Scalar { units: i64::MIN },
    }
}

/// The pointwise union of two boxes: minima of minima, maxima of maxima.
pub open spec fn spec_envelop(a: BoundingBox, b: BoundingBox) -> BoundingBox {
    BoundingBox {
        min_x: Scalar { units: min_i64(a.min_x.units, b.min_x.units) },
        min_y: Scalar { units: min_i64(a.min_y.units, b.min_y.units) },
        max_x: Scalar { units: max_i64(a.max_x.units, b.max_x.units) },
        max_y: Scalar { units: max_i64(a.max_y.units, b.max_y.units) },
    }
}

/// Whether `outer` spans at least everything `inner` spans.
pub open spec fn spec_box_contains(outer: BoundingBox, inner: BoundingBox) -> bool {
    &&& outer.min_x.units <= inner.min_x.units
    &&& outer.min_y.units <= inner.min_y.units
    &&& outer.max_x.units >= inner.max_x.units
    &&& outer.max_y.units >= inner.max_y.units
}

/// Enveloping is commutative: the union of two boxes does not depend on
/// their order.
pub proof fn lemma_envelop_commutative(a: BoundingBox, b: BoundingBox)
    ensures
        spec_envelop(a, b) == spec_envelop(b, a),
{
}

/// Enveloping is idempotent in its effect on the accumulator: enveloping
/// the same box twice yields the same box as enveloping it once.
pub proof fn lemma_envelop_idempotent(a: BoundingBox, b: BoundingBox)
    ensures
        spec_envelop(spec_envelop(a, b), b) == spec_envelop(a, b),
{
}

/// Enveloping any box into the identity box yields exactly that box.
pub proof fn lemma_envelop_identity(b: BoundingBox)
    ensures
        spec_envelop(spec_empty_box(), b) == b,
{
}

/// Enveloping only grows a box, never shrinks it.
pub proof fn lemma_envelop_monotonic(a: BoundingBox, b: BoundingBox)
    ensures
        spec_box_contains(spec_envelop(a, b), a),
        spec_box_contains(spec_envelop(a, b), b),
{
}

impl BoundingBox {
    /// The identity box, into which nothing has been enveloped yet.
    pub fn empty() -> (r: BoundingBox)
        ensures
            r == spec_empty_box(),
    {
        BoundingBox {
            min_x: Scalar { units: i64::MAX },
            min_y: Scalar { units: i64::MAX },
            max_x: Scalar { units: i64::MIN },
            max_y: Scalar { units: i64::MIN },
        }
    }

    /// The box's left edge.
    pub fn x(&self) -> (r: Scalar)
        ensures
            r == self.min_x,
    {
        self.min_x
    }

    /// The box's top edge.
    pub fn y(&self) -> (r: Scalar)
        ensures
            r == self.min_y,
    {
        self.min_y
    }

    /// The box's horizontal extent, saturating at the coordinate range.
    pub fn width(&self) -> (r: Scalar)
        ensures
            r.as_int() == sat_i64(self.max_x.as_int() - self.min_x.as_int()),
    {
        self.max_x.sub_sat(self.min_x)
    }

    /// The box's vertical extent, saturating at the coordinate range.
    pub fn height(&self) -> (r: Scalar)
        ensures
            r.as_int() == sat_i64(self.max_y.as_int() - self.min_y.as_int()),
    {
        self.max_y.sub_sat(self.min_y)
    }

    /// Grows this box to span `other` as well.
    pub fn envelop(&mut self, other: &BoundingBox)
        ensures
            *final(self) == spec_envelop(*old(self), *other),
    {
        self.min_x = self.min_x.min(other.min_x);
        self.min_y = self.min_y.min(other.min_y);
        self.max_x = self.max_x.max(other.max_x);
        self.max_y = self.max_y.max(other.max_y);
    }

    /// Translates both corners by the same offset, saturating at the
    /// coordinate range.
    pub fn move_by(&mut self, dx: Scalar, dy: Scalar)
        ensures
            final(self).min_x.as_int() == sat_i64(old(self).min_x.as_int() + dx.as_int()),
            final(self).min_y.as_int() == sat_i64(old(self).min_y.as_int() + dy.as_int()),
            final(self).max_x.as_int() == sat_i64(old(self).max_x.as_int() + dx.as_int()),
            final(self).max_y.as_int() == sat_i64(old(self).max_y.as_int() + dy.as_int()),
    {
        self.min_x = self.min_x.add_sat(dx);
        self.min_y = self.min_y.add_sat(dy);
        self.max_x = self.max_x.add_sat(dx);
        self.max_y = self.max_y.add_sat(dy);
    }
}

/// What a `(at x y angle?)` list names, if anything.
pub open spec fn spec_position_from(m: NodeModel) -> Option<Position> {
    match m {
        NodeModel::List(es) => {
            if es.len() < 3 || es[0] != NodeModel::Symbol("at"@) {
                None
            } else {
                match (spec_scalar_of(es[1]), spec_scalar_of(es[2])) {
                    (Some(x), Some(y)) => {
                        if es.len() == 3 {
                            Some(
                                Position {
                                    x: Scalar { units: x as i64 },
                                    y: Scalar { units: y as i64 },
                                    angle: None,
                                },
                            )
                        } else if es.len() == 4 {
                            match spec_scalar_of(es[3]) {
                                Some(a) => Some(
                                    Position {
                                        x: Scalar { units: x as i64 },
                                        y: Scalar { units: y as i64 },
                                        angle: Some(Scalar { units: a as i64 }),
                                    },
                                ),
                                None => None,
                            }
                        } else {
                            None
                        }
                    },
                    _ => None,
                }
            }
        },
        _ => None,
    }
}

impl Position {
    /// Reads a position from its `(at x y angle?)` list.
    pub fn from_sexpr(e: SExpr) -> (r: Result<Position, ParserError>)
        ensures
            match spec_position_from(e.model()) {
                Some(v) => r matches Ok(p) && p == v,
                None => r is Err,
            },
    {
        let mut list = match e.as_list() {
            Ok(l) => l,
            Err(er) => {
                return Err(er);
            },
        };
        let ghost items = list.0@;
        proof {
            lemma_models_of(items);
        }
        let sym = match list.next_symbol() {
            Ok(s) => s,
            Err(er) => {
                return Err(er);
            },
        };
        if !crate::sexpr::str_eq(sym.as_str(), "at") {
            proof {
                reveal_strlit("at");
            }
            return Err(ParserError::Unexpected {
                expected: String::from_str("at"),
                found: sym.0,
            });
        }
        proof {
            reveal_strlit("at");
            assert(list.0@ =~= items.drop_first());
        }
        let x = match list.next_scalar() {
            Ok(v) => v,
            Err(er) => {
                return Err(er);
            },
        };
        proof {
            assert(items.drop_first()[0] == items[1]);
            assert(items.drop_first().drop_first() =~= items.subrange(2, items.len() as int));
            assert(list.0@ =~= items.subrange(2, items.len() as int));
        }
        let y = match list.next_scalar() {
            Ok(v) => v,
            Err(er) => {
                return Err(er);
            },
        };
        proof {
            assert(items.subrange(2, items.len() as int)[0] == items[2]);
            assert(items.subrange(2, items.len() as int).drop_first() =~= items.subrange(
                3,
                items.len() as int,
            ));
        }
        let angle = match list.next_maybe_scalar() {
            Ok(o) => o,
            Err(er) => {
                return Err(er);
            },
        };
        proof {
            if items.len() > 3 {
                assert(items.subrange(3, items.len() as int)[0] == items[3]);
                assert(items.subrange(3, items.len() as int).drop_first() =~= items.subrange(
                    4,
                    items.len() as int,
                ));
            }
        }
        match list.expect_end() {
            Ok(()) => {},
            Err(er) => {
                return Err(er);
            },
        }
        Ok(Position { x, y, angle })
    }
}

/// What a `(name x y)` pair list names, if anything: the leading symbol may
/// be any tag.
pub open spec fn spec_point_from(m: NodeModel) -> Option<Point> {
    match m {
        NodeModel::List(es) => {
            if es.len() == 3 && es[0] is Symbol {
                match (spec_scalar_of(es[1]), spec_scalar_of(es[2])) {
                    (Some(x), Some(y)) => Some(
                        Point { x: Scalar { units: x as i64 }, y: Scalar { units: y as i64 } },
                    ),
                    _ => None,
                }
            } else {
                None
            }
        },
        _ => None,
    }
}

impl Point {
    /// Reads a point from a `(name x y)` list, whatever its leading tag.
    pub fn from_sexpr(e: SExpr) -> (r: Result<Point, ParserError>)
        ensures
            match spec_point_from(e.model()) {
                Some(v) => r matches Ok(p) && p == v,
                None => r is Err,
            },
    {
        let mut list = match e.as_list() {
            Ok(l) => l,
            Err(er) => {
                return Err(er);
            },
        };
        let ghost items = list.0@;
        proof {
            lemma_models_of(items);
        }
        let _name = match list.next_symbol() {
            Ok(s) => s,
            Err(er) => {
                return Err(er);
            },
        };
        proof {
            assert(list.0@ =~= items.drop_first());
        }
        let x = match list.next_scalar() {
            Ok(v) => v,
            Err(er) => {
                return Err(er);
            },
        };
        proof {
            assert(items.drop_first()[0] == items[1]);
            assert(items.drop_first().drop_first() =~= items.subrange(2, items.len() as int));
        }
        let y = match list.next_scalar() {
            Ok(v) => v,
            Err(er) => {
                return Err(er);
            },
        };
        proof {
            assert(items.subrange(2, items.len() as int)[0] == items[2]);
            assert(items.subrange(2, items.len() as int).drop_first() =~= items.subrange(
                3,
                items.len() as int,
            ));
        }
        match list.expect_end() {
            Ok(()) => {},
            Err(er) => {
                return Err(er);
            },
        }
        Ok(Point { x, y })
    }
}

/// The points named by the children of a `(pts ...)` list: each child must
/// be an `(xy ...)` point list.
pub open spec fn spec_points_fold(acc: Seq<Point>, es: Seq<NodeModel>) -> Option<Seq<Point>>
    decreases es.len(),
{
    if es.len() == 0 {
        Some(acc)
    } else {
        match es[0] {
            NodeModel::List(inner) => {
                if inner.len() > 0 && inner[0] == NodeModel::Symbol("xy"@) {
                    match spec_point_from(es[0]) {
                        Some(p) => spec_points_fold(acc.push(p), es.drop_first()),
                        None => None,
                    }
                } else {
                    None
                }
            },
            _ => None,
        }
    }
}

/// What a `(pts (xy ..) ..)` list names, if anything.
pub open spec fn spec_point_list_from(m: NodeModel) -> Option<Seq<Point>> {
    match m {
        NodeModel::List(es) => {
            if es.len() >= 1 && es[0] == NodeModel::Symbol("pts"@) {
                spec_points_fold(Seq::empty(), es.drop_first())
            } else {
                None
            }
        },
        _ => None,
    }
}

impl PointList {
    /// Reads a point list from its `(pts (xy ..) ..)` list.
    pub fn from_sexpr(e: SExpr) -> (r: Result<PointList, ParserError>)
        ensures
            match spec_point_list_from(e.model()) {
                Some(v) => r matches Ok(p) && p.0@ == v,
                None => r is Err,
            },
    {
        let mut list = match e.as_list() {
            Ok(l) => l,
            Err(er) => {
                return Err(er);
            },
        };
        let ghost items = list.0@;
        proof {
            lemma_models_of(items);
        }
        let sym = match list.next_symbol() {
            Ok(s) => s,
            Err(er) => {
                return Err(er);
            },
        };
        if !crate::sexpr::str_eq(sym.as_str(), "pts") {
            proof {
                reveal_strlit("pts");
            }
            return Err(ParserError::Unexpected {
                expected: String::from_str("pts"),
                found: sym.0,
            });
        }
        proof {
            reveal_strlit("pts");
            assert(list.0@ =~= items.drop_first());
        }
        let mut out: Vec<Point> = Vec::new();
        loop
            invariant
                models_of(items).len() == items.len(),
                items.len() >= 1,
                1 + out@.len() <= items.len(),
                list.0@ =~= items.skip(1 + out@.len() as int),
                forall|i: int| 0 <= i < items.len() ==> models_of(items)[i] == #[trigger] items[i].model(),
                spec_points_fold(Seq::empty(), models_of(items).drop_first()) == spec_points_fold(
                    out@,
                    models_of(items).skip(1 + out@.len() as int),
                ),
                spec_point_list_from(e.model()) == spec_points_fold(
                    Seq::empty(),
                    models_of(items).drop_first(),
                ),
            ensures
                list.0@.len() == 0,
                models_of(items).len() == items.len(),
                1 + out@.len() <= items.len(),
                spec_points_fold(Seq::empty(), models_of(items).drop_first()) == spec_points_fold(
                    out@,
                    models_of(items).skip(1 + out@.len() as int),
                ),
                models_of(items).skip(1 + out@.len() as int).len() == 0,
            decreases list.0@.len(),
        {
            let ghost rest = models_of(items).skip(1 + out@.len() as int);
            proof {
                assert(models_of(items).skip(1 + out@.len() as int).len() == list.0@.len());
                if list.0@.len() > 0 {
                    assert(items.skip(1 + out@.len() as int)[0] == items[1 + out@.len() as int]);
                    assert(models_of(items).skip(1 + out@.len() as int)[0] == models_of(items)[1
                        + out@.len() as int]);
                    assert(rest[0] == items[1 + out@.len() as int].model());
                }
            }
            let nxt = match list.next_maybe_list() {
                Ok(o) => o,
                Err(er) => {
                    return Err(er);
                },
            };
            let pt_list = match nxt {
                Some(l) => l,
                None => {
                    break;
                },
            };
            proof {
                assert(items.skip(1 + out@.len() as int)[0] == items[1 + out@.len() as int]);
                assert(models_of(items).skip(1 + out@.len() as int)[0] == models_of(items)[1
                    + out@.len() as int]);
                assert(rest[0] == items[1 + out@.len() as int].model());
            }
            proof {
                lemma_models_of(pt_list.0@);
            }
            let name_ok = match pt_list.peek_name() {
                Ok(name) => crate::sexpr::str_eq(name, "xy"),
                Err(er) => {
                    return Err(er);
                },
            };
            if !name_ok {
                proof {
                    reveal_strlit("xy");
                }
                return Err(ParserError::Unexpected {
                    expected: String::from_str("xy"),
                    found: String::from_str("list"),
                });
            }
            proof {
                reveal_strlit("xy");
                lemma_models_of(pt_list.0@);
            }
            let pt = match Point::from_sexpr(SExpr::List(pt_list)) {
                Ok(p) => p,
                Err(er) => {
                    return Err(er);
                },
            };
            out.push(pt);
            proof {
                assert(items.skip(1 + (out@.len() - 1) as int).drop_first() =~= items.skip(
                    1 + out@.len() as int,
                ));
                assert(models_of(items).skip(1 + (out@.len() - 1) as int).drop_first() =~=
                    models_of(items).skip(1 + out@.len() as int));
            }
        }
        proof {
            assert(models_of(items).skip(1 + out@.len() as int).len() == 0);
            assert(spec_points_fold(Seq::empty(), models_of(items).drop_first()) == Some(out@));
        }
        Ok(PointList(out))
    }
}

} // verus!
