//! Graphic primitives: strokes, and the eight drawable shapes a footprint
//! or board can carry, each with its axis-aligned bounding box.

use vstd::prelude::*;

verus! {

use crate::parser::ParserError;
use crate::scalar::Scalar;
use crate::sexpr::cursor::{spec_scalar_of, spec_u8_of};
use crate::sexpr::{
    lemma_models_of, models_of, spec_ends_with, spec_fold, str_ends_with, str_eq, NodeModel,
    SExpr, SExprList,
};
use crate::common::footprint::{spec_layer_from, spec_uuid_from, Layer, Uuid};
use crate::common::positionals::{
    spec_empty_box, spec_envelop, spec_point_from, spec_point_list_from, spec_position_from,
    BoundingBox, GetBoundingBox, Point, PointList, Position,
};
use crate::scalar::{lemma_isqrt_bounds, sat_i64, spec_isqrt};

/// Valid stroke line styles.
#[derive(Clone, Copy, Debug, PartialEq, Eq, Structural, Default)]
pub enum StrokeType {
    #[default]
    Default,
    Solid,
    Dash,
    DashDot,
    DashDotDot,
    Dot,
}

/// A color as red, green, blue and alpha channels.
#[derive(Clone, Copy, Debug, PartialEq, Eq, Structural, Default)]
pub struct RgbaColor(pub u8, pub u8, pub u8, pub u8);

/// A stroke: the line style used to draw an outline.
#[derive(Clone, Copy, Debug, PartialEq, Eq, Structural)]
pub struct Stroke {
    /// Line width.
    pub width: Scalar,
    /// Line style.
    pub line_type: StrokeType,
    /// Optional color.
    pub color: Option<RgbaColor>,
}

impl Stroke {
    /// The all-defaults stroke.
    pub open spec fn spec_default() -> Stroke {
        Stroke { width: Scalar { units: 0 }, line_type: StrokeType::Default, color: None }
    }

    /// The all-defaults stroke.
    pub fn default_value() -> (r: Stroke)
        ensures
            r == Stroke::spec_default(),
    {
        Stroke { width: Scalar { units: 0 }, line_type: StrokeType::Default, color: None }
    }
}

// ---------------------------------------------------------------------------
// Shared field readers
// ---------------------------------------------------------------------------

/// The length named by a `(tag value ...)` field list; the tag itself has
/// been checked by the caller, anything after the value is tolerated.
pub open spec fn spec_field_scalar(es: Seq<NodeModel>) -> Option<int> {
    if es.len() >= 2 {
        spec_scalar_of(es[1])
    } else {
        None
    }
}

/// Reads the length of a `(tag value ...)` field list.
pub fn field_scalar(attr: SExprList) -> (r: Result<Scalar, ParserError>)
    ensures
        match spec_field_scalar(models_of(attr.0@)) {
            Some(units) => r matches Ok(v) && v.as_int() == units,
            None => r is Err,
        },
{
    let mut list = attr;
    let ghost items = list.0@;
    proof {
        lemma_models_of(items);
    }
    match list.discard(1) {
        Ok(()) => {},
        Err(er) => {
            return Err(er);
        },
    }
    proof {
        if items.len() >= 2 {
            assert(items.subrange(1, items.len() as int)[0] == items[1]);
        }
    }
    match list.next_scalar() {
        Ok(v) => Ok(v),
        Err(er) => Err(er),
    }
}

/// The text named by a `(tag "value" ...)` field list.
pub open spec fn spec_field_string(es: Seq<NodeModel>) -> Option<Seq<char>> {
    if es.len() >= 2 {
        match es[1] {
            NodeModel::Value(text) => Some(text),
            _ => None,
        }
    } else {
        None
    }
}

/// Reads the text of a `(tag "value" ...)` field list.
pub fn field_string(attr: SExprList) -> (r: Result<String, ParserError>)
    ensures
        match spec_field_string(models_of(attr.0@)) {
            Some(text) => r matches Ok(v) && v@ == text,
            None => r is Err,
        },
{
    let mut list = attr;
    let ghost items = list.0@;
    proof {
        lemma_models_of(items);
    }
    match list.discard(1) {
        Ok(()) => {},
        Err(er) => {
            return Err(er);
        },
    }
    proof {
        if items.len() >= 2 {
            assert(items.subrange(1, items.len() as int)[0] == items[1]);
        }
    }
    match list.next_string() {
        Ok(v) => Ok(v),
        Err(er) => Err(er),
    }
}

/// The flag named by a `(fill yes|no ...)` field list: true exactly for the
/// symbol `yes`.
pub open spec fn spec_field_fill(es: Seq<NodeModel>) -> Option<bool> {
    if es.len() >= 2 {
        match es[1] {
            NodeModel::Symbol(kw) => Some(kw == "yes"@),
            _ => None,
        }
    } else {
        None
    }
}

/// Reads the flag of a `(fill yes|no ...)` field list.
pub fn field_fill(attr: SExprList) -> (r: Result<bool, ParserError>)
    ensures
        match spec_field_fill(models_of(attr.0@)) {
            Some(b) => r matches Ok(v) && v == b,
            None => r is Err,
        },
{
    let mut list = attr;
    let ghost items = list.0@;
    proof {
        lemma_models_of(items);
    }
    match list.discard(1) {
        Ok(()) => {},
        Err(er) => {
            return Err(er);
        },
    }
    proof {
        if items.len() >= 2 {
            assert(items.subrange(1, items.len() as int)[0] == items[1]);
        }
    }
    match list.next_symbol() {
        Ok(sym) => Ok(str_eq(sym.as_str(), "yes")),
        Err(er) => Err(er),
    }
}

/// The optional length named by a `(tag value? ...)` field list: absent
/// when the list ends right after the tag.
pub open spec fn spec_field_maybe_scalar(es: Seq<NodeModel>) -> Option<Option<int>> {
    if es.len() >= 2 {
        match spec_scalar_of(es[1]) {
            Some(units) => Some(Some(units)),
            None => None,
        }
    } else if es.len() == 1 {
        Some(None)
    } else {
        None
    }
}

/// Reads the optional length of a `(tag value? ...)` field list.
pub fn field_maybe_scalar(attr: SExprList) -> (r: Result<Option<Scalar>, ParserError>)
    ensures
        match spec_field_maybe_scalar(models_of(attr.0@)) {
            Some(o) => match o {
                Some(units) => r matches Ok(ro) && (ro matches Some(v) && v.as_int() == units),
                None => r matches Ok(ro) && ro is None,
            },
            None => r is Err,
        },
{
    let mut list = attr;
    let ghost items = list.0@;
    proof {
        lemma_models_of(items);
    }
    match list.discard(1) {
        Ok(()) => {},
        Err(er) => {
            return Err(er);
        },
    }
    proof {
        if items.len() >= 2 {
            assert(items.subrange(1, items.len() as int)[0] == items[1]);
        }
    }
    match list.next_maybe_scalar() {
        Ok(o) => Ok(o),
        Err(er) => Err(er),
    }
}

// ---------------------------------------------------------------------------
// Stroke parsing
// ---------------------------------------------------------------------------

/// What a `(type style)` list names, if anything: one of the six stroke
/// styles.
pub open spec fn spec_stroke_type_from(m: NodeModel) -> Option<StrokeType> {
    match m {
        NodeModel::List(es) => {
            if es.len() >= 2 && es[0] == NodeModel::Symbol("type"@) {
                match es[1] {
                    NodeModel::Symbol(kw) => {
                        if kw == "dash"@ {
                            Some(StrokeType::Dash)
                        } else if kw == "dash_dot"@ {
                            Some(StrokeType::DashDot)
                        } else if kw == "dash_dot_dot"@ {
                            Some(StrokeType::DashDotDot)
                        } else if kw == "dot"@ {
                            Some(StrokeType::Dot)
                        } else if kw == "default"@ {
                            Some(StrokeType::Default)
                        } else if kw == "solid"@ {
                            Some(StrokeType::Solid)
                        } else {
                            None
                        }
                    },
                    _ => None,
                }
            } else {
                None
            }
        },
        _ => None,
    }
}

impl StrokeType {
    /// Reads a stroke style from its `(type style)` list; a style keyword
    /// outside the six known ones is an error.
    pub fn from_sexpr(e: SExpr) -> (r: Result<StrokeType, ParserError>)
        ensures
            match spec_stroke_type_from(e.model()) {
                Some(v) => r matches Ok(t) && t == v,
                None => r is Err,
            },
    {
        let mut list = match e.as_list() {
            Ok(l) => l,
            Err(er) => {
                return Err(er);
            },
        };
        let ghost items = list.0@;
        proof {
            lemma_models_of(items);
        }
        let sym = match list.next_symbol() {
            Ok(s) => s,
            Err(er) => {
                return Err(er);
            },
        };
        if !str_eq(sym.as_str(), "type") {
            return Err(ParserError::Unexpected {
                expected: String::from_str("type"),
                found: sym.0,
            });
        }
        proof {
            assert(list.0@ =~= items.drop_first());
            if items.len() >= 2 {
                assert(items.drop_first()[0] == items[1]);
            }
        }
        let kw = match list.next_symbol() {
            Ok(s) => s,
            Err(er) => {
                return Err(er);
            },
        };
        if str_eq(kw.as_str(), "dash") {
            Ok(StrokeType::Dash)
        } else if str_eq(kw.as_str(), "dash_dot") {
            Ok(StrokeType::DashDot)
        } else if str_eq(kw.as_str(), "dash_dot_dot") {
            Ok(StrokeType::DashDotDot)
        } else if str_eq(kw.as_str(), "dot") {
            Ok(StrokeType::Dot)
        } else if str_eq(kw.as_str(), "default") {
            Ok(StrokeType::Default)
        } else if str_eq(kw.as_str(), "solid") {
            Ok(StrokeType::Solid)
        } else {
            Err(ParserError::Unexpected {
                expected: String::from_str("stroke style"),
                found: kw.0,
            })
        }
    }
}

/// What a `(color r g b a)` list names, if anything.
pub open spec fn spec_color_from(m: NodeModel) -> Option<RgbaColor> {
    match m {
        NodeModel::List(es) => {
            if es.len() == 5 && es[0] == NodeModel::Symbol("color"@) {
                match (spec_u8_of(es[1]), spec_u8_of(es[2]), spec_u8_of(es[3]), spec_u8_of(
                    es[4],
                )) {
                    (Some(rr), Some(gg), Some(bb), Some(aa)) => Some(
                        RgbaColor(rr as u8, gg as u8, bb as u8, aa as u8),
                    ),
                    _ => None,
                }
            } else {
                None
            }
        },
        _ => None,
    }
}

impl RgbaColor {
    /// Reads a color from its `(color r g b a)` list.
    pub fn from_sexpr(e: SExpr) -> (r: Result<RgbaColor, ParserError>)
        ensures
            match spec_color_from(e.model()) {
                Some(v) => r matches Ok(c) && c == v,
                None => r is Err,
            },
    {
        let mut list = match e.as_list() {
            Ok(l) => l,
            Err(er) => {
                return Err(er);
            },
        };
        let ghost items = list.0@;
        proof {
            lemma_models_of(items);
        }
        let sym = match list.next_symbol() {
            Ok(s) => s,
            Err(er) => {
                return Err(er);
            },
        };
        if !str_eq(sym.as_str(), "color") {
            return Err(ParserError::Unexpected {
                expected: String::from_str("color"),
                found: sym.0,
            });
        }
        proof {
            assert(list.0@ =~= items.drop_first());
            if items.len() >= 2 {
                assert(items.drop_first()[0] == items[1]);
                assert(items.drop_first().drop_first() =~= items.subrange(2, items.len() as int));
            }
        }
        let rr = match list.next_u8() {
            Ok(v) => v,
            Err(er) => {
                return Err(er);
            },
        };
        proof {
            if items.len() >= 3 {
                assert(items.subrange(2, items.len() as int)[0] == items[2]);
                assert(items.subrange(2, items.len() as int).drop_first() =~= items.subrange(
                    3,
                    items.len() as int,
                ));
            }
        }
        let gg = match list.next_u8() {
            Ok(v) => v,
            Err(er) => {
                return Err(er);
            },
        };
        proof {
            if items.len() >= 4 {
                assert(items.subrange(3, items.len() as int)[0] == items[3]);
                assert(items.subrange(3, items.len() as int).drop_first() =~= items.subrange(
                    4,
                    items.len() as int,
                ));
            }
        }
        let bb = match list.next_u8() {
            Ok(v) => v,
            Err(er) => {
                return Err(er);
            },
        };
        proof {
            if items.len() >= 5 {
                assert(items.subrange(4, items.len() as int)[0] == items[4]);
                assert(items.subrange(4, items.len() as int).drop_first() =~= items.subrange(
                    5,
                    items.len() as int,
                ));
            }
        }
        let aa = match list.next_u8() {
            Ok(v) => v,
            Err(er) => {
                return Err(er);
            },
        };
        match list.expect_end() {
            Ok(()) => {},
            Err(er) => {
                return Err(er);
            },
        }
        Ok(RgbaColor(rr, gg, bb, aa))
    }
}

/// One child's effect on a stroke being read: `width`, `type` and `color`
/// fields are applied, other tagged lists are tolerated, and anything that
/// is not a tagged list is an error.
pub open spec fn spec_stroke_step(acc: Stroke, m: NodeModel) -> Option<Stroke> {
    match m {
        NodeModel::List(es) => {
            if es.len() == 0 {
                None
            } else {
                match es[0] {
                    NodeModel::Symbol(tag) => {
                        if tag == "width"@ {
                            match spec_field_scalar(es) {
                                Some(units) => Some(
                                    Stroke { width: Scalar { units: units as i64 }, ..acc },
                                ),
                                None => None,
                            }
                        } else if tag == "type"@ {
                            match spec_stroke_type_from(m) {
                                Some(t) => Some(Stroke { line_type: t, ..acc }),
                                None => None,
                            }
                        } else if tag == "color"@ {
                            match spec_color_from(m) {
                                Some(c) => Some(Stroke { color: Some(c), ..acc }),
                                None => None,
                            }
                        } else {
                            Some(acc)
                        }
                    },
                    _ => None,
                }
            }
        },
        _ => None,
    }
}

/// What a `(stroke ...)` list names, if anything.
pub open spec fn spec_stroke_from(m: NodeModel) -> Option<Stroke> {
    match m {
        NodeModel::List(es) => {
            if es.len() >= 1 && es[0] == NodeModel::Symbol("stroke"@) {
                spec_fold(Stroke::spec_default(), es.drop_first(), |a: Stroke, c: NodeModel| spec_stroke_step(a, c))
            } else {
                None
            }
        },
        _ => None,
    }
}

impl Stroke {
    /// Reads a stroke from its `(stroke ...)` list. Fields that are not
    /// recognized are tolerated and skipped.
    pub fn from_sexpr(e: SExpr) -> (r: Result<Stroke, ParserError>)
        ensures
            match spec_stroke_from(e.model()) {
                Some(v) => r matches Ok(s) && s == v,
                None => r is Err,
            },
    {
        let ghost stepf = |a: Stroke, c: NodeModel| spec_stroke_step(a, c);
        let mut list = match e.as_list() {
            Ok(l) => l,
            Err(er) => {
                return Err(er);
            },
        };
        let ghost items = list.0@;
        proof {
            lemma_models_of(items);
        }
        let sym = match list.next_symbol() {
            Ok(s) => s,
            Err(er) => {
                return Err(er);
            },
        };
        if !str_eq(sym.as_str(), "stroke") {
            return Err(ParserError::Unexpected {
                expected: String::from_str("stroke"),
                found: sym.0,
            });
        }
        proof {
            assert(list.0@ =~= items.drop_first());
            assert(models_of(items).drop_first() =~= models_of(items).skip(1));
        }
        let mut stroke = Stroke::default_value();
        let ghost mut k: int = 1;
        loop
            invariant
                models_of(items).len() == items.len(),
                items.len() >= 1,
                1 <= k <= items.len(),
                list.0@ =~= items.skip(k),
                forall|i: int| 0 <= i < items.len() ==> #[trigger] models_of(items)[i]
                    == items[i].model(),
                spec_fold(Stroke::spec_default(), models_of(items).drop_first(), stepf)
                    == spec_fold(stroke, models_of(items).skip(k), stepf),
                spec_stroke_from(e.model()) == spec_fold(
                    Stroke::spec_default(),
                    models_of(items).drop_first(),
                    stepf,
                ),
                stepf == (|a: Stroke, c: NodeModel| spec_stroke_step(a, c)),
            ensures
                list.0@.len() == 0,
                spec_stroke_from(e.model()) == spec_fold(
                    stroke,
                    models_of(items).skip(k),
                    stepf,
                ),
                models_of(items).skip(k).len() == 0,
            decreases list.0@.len(),
        {
            proof {
                assert(models_of(items).skip(k).len() == list.0@.len());
                if list.0@.len() > 0 {
                    assert(items.skip(k)[0] == items[k]);
                    assert(models_of(items).skip(k)[0] == models_of(items)[k]);
                }
            }
            let nxt = match list.next_maybe_list() {
                Ok(o) => o,
                Err(er) => {
                    return Err(er);
                },
            };
            let attr = match nxt {
                Some(l) => l,
                None => {
                    break;
                },
            };
            proof {
                lemma_models_of(attr.0@);
            }
            let name_is_width = match attr.peek_name() {
                Ok(name) => str_eq(name, "width"),
                Err(er) => {
                    return Err(er);
                },
            };
            let name_is_type = match attr.peek_name() {
                Ok(name) => str_eq(name, "type"),
                Err(er) => {
                    return Err(er);
                },
            };
            let name_is_color = match attr.peek_name() {
                Ok(name) => str_eq(name, "color"),
                Err(er) => {
                    return Err(er);
                },
            };
            if name_is_width {
                let w = match field_scalar(attr) {
                    Ok(v) => v,
                    Err(er) => {
                        return Err(er);
                    },
                };
                stroke.width = w;
            } else if name_is_type {
                let t = match StrokeType::from_sexpr(SExpr::List(attr)) {
                    Ok(v) => v,
                    Err(er) => {
                        return Err(er);
                    },
                };
                stroke.line_type = t;
            } else if name_is_color {
                let c = match RgbaColor::from_sexpr(SExpr::List(attr)) {
                    Ok(v) => v,
                    Err(er) => {
                        return Err(er);
                    },
                };
                stroke.color = Some(c);
            }
            proof {
                assert(items.skip(k).drop_first() =~= items.skip(k + 1));
                assert(models_of(items).skip(k).drop_first() =~= models_of(items).skip(k + 1));
                k = k + 1;
            }
        }
        Ok(stroke)
    }
}


/// Footprint text roles.
#[derive(Clone, Copy, Debug, PartialEq, Eq, Structural, Default)]
pub enum FootprintTextType {
    #[default]
    Reference,
    Value,
    User,
}

/// An optional unit count as an optional length.
pub open spec fn spec_opt_scalar(v: Option<int>) -> Option<Scalar> {
    match v {
        Some(units) => Some(Scalar { units: units as i64 }),
        None => None,
    }
}

/// A straight line segment.
#[derive(Clone, Debug)]
pub struct FootprintLine {
    pub start: Point,
    pub end: Point,
    pub layer: Layer,
    pub stroke: Stroke,
    pub uuid: Uuid,
    pub width: Scalar,
    /// Locked flag.
    pub locked: bool,
}

/// The mathematical value of a `FootprintLine`.
pub struct FootprintLineView {
    pub start: Point,
    pub end: Point,
    pub layer: Seq<char>,
    pub stroke: Stroke,
    pub uuid: Seq<char>,
    pub width: Scalar,
    pub locked: bool,
}

impl FootprintLine {
    /// The ghost value of this shape.
    pub open spec fn model(self) -> FootprintLineView {
        FootprintLineView {
            start: self.start,
            end: self.end,
            layer: self.layer.0@,
            stroke: self.stroke,
            uuid: self.uuid.0@,
            width: self.width,
            locked: self.locked,
        }
    }

    /// The all-defaults value.
    pub open spec fn spec_default() -> FootprintLineView {
        FootprintLineView {
            start: Point { x: Scalar { units: 0 }, y: Scalar { units: 0 } },
            end: Point { x: Scalar { units: 0 }, y: Scalar { units: 0 } },
            layer: Seq::empty(),
            stroke: Stroke::spec_default(),
            uuid: Seq::empty(),
            width: Scalar { units: 0 },
            locked: false,
        }
    }
}

/// One child's effect on a `FootprintLine` being read: recognized fields
/// are applied, unknown tags and atoms are tolerated.
pub open spec fn spec_line_step(acc: FootprintLineView, m: NodeModel) -> Option<FootprintLineView> {
    match m {
        NodeModel::Symbol(kw) => {
            if kw == "locked"@ {
                Some(FootprintLineView { locked: true, ..acc })
            } else {
                Some(acc)
            }
        },
        NodeModel::List(es) => {
            if es.len() == 0 {
                None
            } else {
                match es[0] {
                    NodeModel::Symbol(tag) => {
                        if tag == "start"@ {
                            match spec_point_from(m) {
                                Some(v) => Some(FootprintLineView { start: v, ..acc }),
                                None => None,
                            }
                        } else if tag == "end"@ {
                            match spec_point_from(m) {
                                Some(v) => Some(FootprintLineView { end: v, ..acc }),
                                None => None,
                            }
                        } else if tag == "layer"@ {
                            match spec_layer_from(m) {
                                Some(v) => Some(FootprintLineView { layer: v, ..acc }),
                                None => None,
                            }
                        } else if tag == "stroke"@ {
                            match spec_stroke_from(m) {
                                Some(v) => Some(FootprintLineView { stroke: v, ..acc }),
                                None => None,
                            }
                        } else if tag == "uuid"@ {
                            match spec_uuid_from(m) {
                                Some(v) => Some(FootprintLineView { uuid: v, ..acc }),
                                None => None,
                            }
                        } else if tag == "width"@ {
                            match spec_field_scalar(es) {
                                Some(v) => Some(FootprintLineView { width: Scalar { units: v as i64 }, ..acc }),
                                None => None,
                            }
                        } else {
                            Some(acc)
                        }
                    },
                    _ => None,
                }
            }
        },
        _ => Some(acc),
    }
}

/// What a `(.._line ...)` list names, if anything: the leading tag
/// must end in `_line`.
pub open spec fn spec_line_from(m: NodeModel) -> Option<FootprintLineView> {
    match m {
        NodeModel::List(es) => {
            if es.len() >= 1 {
                match es[0] {
                    NodeModel::Symbol(tag) => {
                        if spec_ends_with(tag, "_line"@) {
                            spec_fold(FootprintLine::spec_default(), es.drop_first(), |a: FootprintLineView, c: NodeModel| spec_line_step(a, c))
                        } else {
                            None
                        }
                    },
                    _ => None,
                }
            } else {
                None
            }
        },
        _ => None,
    }
}

impl FootprintLine {
    /// Reads this shape from its tagged list. Unknown fields are
    /// tolerated and skipped.
    pub fn from_sexpr(e: SExpr) -> (r: Result<FootprintLine, ParserError>)
        ensures
            match spec_line_from(e.model()) {
                Some(v) => r matches Ok(g) && g.model() == v,
                None => r is Err,
            },
    {
        let ghost stepf = |a: FootprintLineView, c: NodeModel| spec_line_step(a, c);
        let mut list = match e.as_list() {
            Ok(l) => l,
            Err(er) => {
                return Err(er);
            },
        };
        let ghost items = list.0@;
        proof {
            lemma_models_of(items);
        }
        let sym = match list.next_symbol() {
            Ok(s) => s,
            Err(er) => {
                return Err(er);
            },
        };
        if !str_ends_with(sym.as_str(), "_line") {
            return Err(ParserError::Unexpected {
                expected: String::from_str("_line"),
                found: sym.0,
            });
        }
        proof {
            assert(list.0@ =~= items.drop_first());
            assert(models_of(items).drop_first() =~= models_of(items).skip(1));
        }
        let mut g = FootprintLine {
            start: Point { x: Scalar { units: 0 }, y: Scalar { units: 0 } },
            end: Point { x: Scalar { units: 0 }, y: Scalar { units: 0 } },
            layer: Layer(String::new()),
            stroke: Stroke::default_value(),
            uuid: Uuid(String::new()),
            width: Scalar { units: 0 },
            locked: false,
        };
        let ghost mut k: int = 1;
        loop
            invariant
                models_of(items).len() == items.len(),
                items.len() >= 1,
                1 <= k <= items.len(),
                list.0@ =~= items.skip(k),
                forall|i: int| 0 <= i < items.len() ==> #[trigger] models_of(items)[i]
                    == items[i].model(),
                spec_fold(FootprintLine::spec_default(), models_of(items).drop_first(), stepf)
                    == spec_fold(g.model(), models_of(items).skip(k), stepf),
                spec_line_from(e.model()) == spec_fold(
                    FootprintLine::spec_default(),
                    models_of(items).drop_first(),
                    stepf,
                ),
                stepf == (|a: FootprintLineView, c: NodeModel| spec_line_step(a, c)),
            ensures
                list.0@.len() == 0,
                spec_line_from(e.model()) == spec_fold(
                    g.model(),
                    models_of(items).skip(k),
                    stepf,
                ),
                models_of(items).skip(k).len() == 0,
            decreases list.0@.len(),
        {
            proof {
                assert(models_of(items).skip(k).len() == list.0@.len());
                if list.0@.len() > 0 {
                    assert(items.skip(k)[0] == items[k]);
                    assert(models_of(items).skip(k)[0] == models_of(items)[k]);
                }
            }
            let nxt = match list.next_maybe() {
                Some(c) => c,
                None => {
                    break;
                },
            };
            match nxt {
                SExpr::Symbol(kw) => {
                    if str_eq(kw.as_str(), "locked") {
                        g.locked = true;
                    }
                },
                SExpr::List(attr) => {
                    proof {
                        lemma_models_of(attr.0@);
                    }
                    let code: u32 = match attr.peek_name() {
                        Ok(name) => {
                            if str_eq(name, "start") {
                                1
                            } else if str_eq(name, "end") {
                                2
                            } else if str_eq(name, "layer") {
                                3
                            } else if str_eq(name, "stroke") {
                                4
                            } else if str_eq(name, "uuid") {
                                5
                            } else if str_eq(name, "width") {
                                6
                            } else {
                                0
                            }
                        },
                        Err(er) => {
                            return Err(er);
                        },
                    };
                    if code == 1 {
                        let v = match Point::from_sexpr(SExpr::List(attr)) {
                            Ok(v) => v,
                            Err(er) => {
                                return Err(er);
                            },
                        };
                        g.start = v;
                    } else if code == 2 {
                        let v = match Point::from_sexpr(SExpr::List(attr)) {
                            Ok(v) => v,
                            Err(er) => {
                                return Err(er);
                            },
                        };
                        g.end = v;
                    } else if code == 3 {
                        let v = match Layer::from_sexpr(SExpr::List(attr)) {
                            Ok(v) => v,
                            Err(er) => {
                                return Err(er);
                            },
                        };
                        g.layer = v;
                    } else if code == 4 {
                        let v = match Stroke::from_sexpr(SExpr::List(attr)) {
                            Ok(v) => v,
                            Err(er) => {
                                return Err(er);
                            },
                        };
                        g.stroke = v;
                    } else if code == 5 {
                        let v = match Uuid::from_sexpr(SExpr::List(attr)) {
                            Ok(v) => v,
                            Err(er) => {
                                return Err(er);
                            },
                        };
                        g.uuid = v;
                    } else if code == 6 {
                        let v = match field_scalar(attr) {
                            Ok(v) => v,
                            Err(er) => {
                                return Err(er);
                            },
                        };
                        g.width = v;
                    }
                },
                _ => {},
            }
            proof {
                assert(items.skip(k).drop_first() =~= items.skip(k + 1));
                assert(models_of(items).skip(k).drop_first() =~= models_of(items).skip(k + 1));
                k = k + 1;
            }
        }
        Ok(g)
    }
}

/// A rectangle given by two corners.
#[derive(Clone, Debug)]
pub struct FootprintRectangle {
    pub start: Point,
    pub end: Point,
    pub layer: Layer,
    pub stroke: Stroke,
    pub uuid: Uuid,
    pub fill: bool,
    pub width: Scalar,
    /// Locked flag.
    pub locked: bool,
}

/// The mathematical value of a `FootprintRectangle`.
pub struct FootprintRectangleView {
    pub start: Point,
    pub end: Point,
    pub layer: Seq<char>,
    pub stroke: Stroke,
    pub uuid: Seq<char>,
    pub fill: bool,
    pub width: Scalar,
    pub locked: bool,
}

impl FootprintRectangle {
    /// The ghost value of this shape.
    pub open spec fn model(self) -> FootprintRectangleView {
        FootprintRectangleView {
            start: self.start,
            end: self.end,
            layer: self.layer.0@,
            stroke: self.stroke,
            uuid: self.uuid.0@,
            fill: self.fill,
            width: self.width,
            locked: self.locked,
        }
    }

    /// The all-defaults value.
    pub open spec fn spec_default() -> FootprintRectangleView {
        FootprintRectangleView {
            start: Point { x: Scalar { units: 0 }, y: Scalar { units: 0 } },
            end: Point { x: Scalar { units: 0 }, y: Scalar { units: 0 } },
            layer: Seq::empty(),
            stroke: Stroke::spec_default(),
            uuid: Seq::empty(),
            fill: false,
            width: Scalar { units: 0 },
            locked: false,
        }
    }
}

/// One child's effect on a `FootprintRectangle` being read: recognized fields
/// are applied, unknown tags and atoms are tolerated.
pub open spec fn spec_rectangle_step(acc: FootprintRectangleView, m: NodeModel) -> Option<FootprintRectangleView> {
    match m {
        NodeModel::Symbol(kw) => {
            if kw == "locked"@ {
                Some(FootprintRectangleView { locked: true, ..acc })
            } else {
                Some(acc)
            }
        },
        NodeModel::List(es) => {
            if es.len() == 0 {
                None
            } else {
                match es[0] {
                    NodeModel::Symbol(tag) => {
                        if tag == "start"@ {
                            match spec_point_from(m) {
                                Some(v) => Some(FootprintRectangleView { start: v, ..acc }),
                                None => None,
                            }
                        } else if tag == "end"@ {
                            match spec_point_from(m) {
                                Some(v) => Some(FootprintRectangleView { end: v, ..acc }),
                                None => None,
                            }
                        } else if tag == "layer"@ {
                            match spec_layer_from(m) {
                                Some(v) => Some(FootprintRectangleView { layer: v, ..acc }),
                                None => None,
                            }
                        } else if tag == "stroke"@ {
                            match spec_stroke_from(m) {
                                Some(v) => Some(FootprintRectangleView { stroke: v, ..acc }),
                                None => None,
                            }
                        } else if tag == "uuid"@ {
                            match spec_uuid_from(m) {
                                Some(v) => Some(FootprintRectangleView { uuid: v, ..acc }),
                                None => None,
                            }
                        } else if tag == "fill"@ {
                            match spec_field_fill(es) {
                                Some(v) => Some(FootprintRectangleView { fill: v, ..acc }),
                                None => None,
                            }
                        } else if tag == "width"@ {
                            match spec_field_scalar(es) {
                                Some(v) => Some(FootprintRectangleView { width: Scalar { units: v as i64 }, ..acc }),
                                None => None,
                            }
                        } else {
                            Some(acc)
                        }
                    },
                    _ => None,
                }
            }
        },
        _ => Some(acc),
    }
}

/// What a `(.._rect ...)` list names, if anything: the leading tag
/// must end in `_rect`.
pub open spec fn spec_rectangle_from(m: NodeModel) -> Option<FootprintRectangleView> {
    match m {
        NodeModel::List(es) => {
            if es.len() >= 1 {
                match es[0] {
                    NodeModel::Symbol(tag) => {
                        if spec_ends_with(tag, "_rect"@) {
                            spec_fold(FootprintRectangle::spec_default(), es.drop_first(), |a: FootprintRectangleView, c: NodeModel| spec_rectangle_step(a, c))
                        } else {
                            None
                        }
                    },
                    _ => None,
                }
            } else {
                None
            }
        },
        _ => None,
    }
}

impl FootprintRectangle {
    /// Reads this shape from its tagged list. Unknown fields are
    /// tolerated and skipped.
    pub fn from_sexpr(e: SExpr) -> (r: Result<FootprintRectangle, ParserError>)
        ensures
            match spec_rectangle_from(e.model()) {
                Some(v) => r matches Ok(g) && g.model() == v,
                None => r is Err,
            },
    {
        let ghost stepf = |a: FootprintRectangleView, c: NodeModel| spec_rectangle_step(a, c);
        let mut list = match e.as_list() {
            Ok(l) => l,
            Err(er) => {
                return Err(er);
            },
        };
        let ghost items = list.0@;
        proof {
            lemma_models_of(items);
        }
        let sym = match list.next_symbol() {
            Ok(s) => s,
            Err(er) => {
                return Err(er);
            },
        };
        if !str_ends_with(sym.as_str(), "_rect") {
            return Err(ParserError::Unexpected {
                expected: String::from_str("_rect"),
                found: sym.0,
            });
        }
        proof {
            assert(list.0@ =~= items.drop_first());
            assert(models_of(items).drop_first() =~= models_of(items).skip(1));
        }
        let mut g = FootprintRectangle {
            start: Point { x: Scalar { units: 0 }, y: Scalar { units: 0 } },
            end: Point { x: Scalar { units: 0 }, y: Scalar { units: 0 } },
            layer: Layer(String::new()),
            stroke: Stroke::default_value(),
            uuid: Uuid(String::new()),
            fill: false,
            width: Scalar { units: 0 },
            locked: false,
        };
        let ghost mut k: int = 1;
        loop
            invariant
                models_of(items).len() == items.len(),
                items.len() >= 1,
                1 <= k <= items.len(),
                list.0@ =~= items.skip(k),
                forall|i: int| 0 <= i < items.len() ==> #[trigger] models_of(items)[i]
                    == items[i].model(),
                spec_fold(FootprintRectangle::spec_default(), models_of(items).drop_first(), stepf)
                    == spec_fold(g.model(), models_of(items).skip(k), stepf),
                spec_rectangle_from(e.model()) == spec_fold(
                    FootprintRectangle::spec_default(),
                    models_of(items).drop_first(),
                    stepf,
                ),
                stepf == (|a: FootprintRectangleView, c: NodeModel| spec_rectangle_step(a, c)),
            ensures
                list.0@.len() == 0,
                spec_rectangle_from(e.model()) == spec_fold(
                    g.model(),
                    models_of(items).skip(k),
                    stepf,
                ),
                models_of(items).skip(k).len() == 0,
            decreases list.0@.len(),
        {
            proof {
                assert(models_of(items).skip(k).len() == list.0@.len());
                if list.0@.len() > 0 {
                    assert(items.skip(k)[0] == items[k]);
                    assert(models_of(items).skip(k)[0] == models_of(items)[k]);
                }
            }
            let nxt = match list.next_maybe() {
                Some(c) => c,
                None => {
                    break;
                },
            };
            match nxt {
                SExpr::Symbol(kw) => {
                    if str_eq(kw.as_str(), "locked") {
                        g.locked = true;
                    }
                },
                SExpr::List(attr) => {
                    proof {
                        lemma_models_of(attr.0@);
                    }
                    let code: u32 = match attr.peek_name() {
                        Ok(name) => {
                            if str_eq(name, "start") {
                                1
                            } else if str_eq(name, "end") {
                                2
                            } else if str_eq(name, "layer") {
                                3
                            } else if str_eq(name, "stroke") {
                                4
                            } else if str_eq(name, "uuid") {
                                5
                            } else if str_eq(name, "fill") {
                                6
                            } else if str_eq(name, "width") {
                                7
                            } else {
                                0
                            }
                        },
                        Err(er) => {
                            return Err(er);
                        },
                    };
                    if code == 1 {
                        let v = match Point::from_sexpr(SExpr::List(attr)) {
                            Ok(v) => v,
                            Err(er) => {
                                return Err(er);
                            },
                        };
                        g.start = v;
                    } else if code == 2 {
                        let v = match Point::from_sexpr(SExpr::List(attr)) {
                            Ok(v) => v,
                            Err(er) => {
                                return Err(er);
                            },
                        };
                        g.end = v;
                    } else if code == 3 {
                        let v = match Layer::from_sexpr(SExpr::List(attr)) {
                            Ok(v) => v,
                            Err(er) => {
                                return Err(er);
                            },
                        };
                        g.layer = v;
                    } else if code == 4 {
                        let v = match Stroke::from_sexpr(SExpr::List(attr)) {
                            Ok(v) => v,
                            Err(er) => {
                                return Err(er);
                            },
                        };
                        g.stroke = v;
                    } else if code == 5 {
                        let v = match Uuid::from_sexpr(SExpr::List(attr)) {
                            Ok(v) => v,
                            Err(er) => {
                                return Err(er);
                            },
                        };
                        g.uuid = v;
                    } else if code == 6 {
                        let v = match field_fill(attr) {
                            Ok(v) => v,
                            Err(er) => {
                                return Err(er);
                            },
                        };
                        g.fill = v;
                    } else if code == 7 {
                        let v = match field_scalar(attr) {
                            Ok(v) => v,
                            Err(er) => {
                                return Err(er);
                            },
                        };
                        g.width = v;
                    }
                },
                _ => {},
            }
            proof {
                assert(items.skip(k).drop_first() =~= items.skip(k + 1));
                assert(models_of(items).skip(k).drop_first() =~= models_of(items).skip(k + 1));
                k = k + 1;
            }
        }
        Ok(g)
    }
}

/// A circle given by its center and a point on its rim.
#[derive(Clone, Debug)]
pub struct FootprintCircle {
    pub center: Point,
    pub end: Point,
    pub layer: Layer,
    pub stroke: Stroke,
    pub uuid: Uuid,
    pub fill: bool,
    pub width: Scalar,
    /// Locked flag.
    pub locked: bool,
}

/// The mathematical value of a `FootprintCircle`.
pub struct FootprintCircleView {
    pub center: Point,
    pub end: Point,
    pub layer: Seq<char>,
    pub stroke: Stroke,
    pub uuid: Seq<char>,
    pub fill: bool,
    pub width: Scalar,
    pub locked: bool,
}

impl FootprintCircle {
    /// The ghost value of this shape.
    pub open spec fn model(self) -> FootprintCircleView {
        FootprintCircleView {
            center: self.center,
            end: self.end,
            layer: self.layer.0@,
            stroke: self.stroke,
            uuid: self.uuid.0@,
            fill: self.fill,
            width: self.width,
            locked: self.locked,
        }
    }

    /// The all-defaults value.
    pub open spec fn spec_default() -> FootprintCircleView {
        FootprintCircleView {
            center: Point { x: Scalar { units: 0 }, y: Scalar { units: 0 } },
            end: Point { x: Scalar { units: 0 }, y: Scalar { units: 0 } },
            layer: Seq::empty(),
            stroke: Stroke::spec_default(),
            uuid: Seq::empty(),
            fill: false,
            width: Scalar { units: 0 },
            locked: false,
        }
    }
}

/// One child's effect on a `FootprintCircle` being read: recognized fields
/// are applied, unknown tags and atoms are tolerated.
pub open spec fn spec_circle_step(acc: FootprintCircleView, m: NodeModel) -> Option<FootprintCircleView> {
    match m {
        NodeModel::Symbol(kw) => {
            if kw == "locked"@ {
                Some(FootprintCircleView { locked: true, ..acc })
            } else {
                Some(acc)
            }
        },
        NodeModel::List(es) => {
            if es.len() == 0 {
                None
            } else {
                match es[0] {
                    NodeModel::Symbol(tag) => {
                        if tag == "center"@ {
                            match spec_point_from(m) {
                                Some(v) => Some(FootprintCircleView { center: v, ..acc }),
                                None => None,
                            }
                        } else if tag == "end"@ {
                            match spec_point_from(m) {
                                Some(v) => Some(FootprintCircleView { end: v, ..acc }),
                                None => None,
                            }
                        } else if tag == "layer"@ {
                            match spec_layer_from(m) {
                                Some(v) => Some(FootprintCircleView { layer: v, ..acc }),
                                None => None,
                            }
                        } else if tag == "stroke"@ {
                            match spec_stroke_from(m) {
                                Some(v) => Some(FootprintCircleView { stroke: v, ..acc }),
                                None => None,
                            }
                        } else if tag == "uuid"@ {
                            match spec_uuid_from(m) {
                                Some(v) => Some(FootprintCircleView { uuid: v, ..acc }),
                                None => None,
                            }
                        } else if tag == "fill"@ {
                            match spec_field_fill(es) {
                                Some(v) => Some(FootprintCircleView { fill: v, ..acc }),
                                None => None,
                            }
                        } else if tag == "width"@ {
                            match spec_field_scalar(es) {
                                Some(v) => Some(FootprintCircleView { width: Scalar { units: v as i64 }, ..acc }),
                                None => None,
                            }
                        } else {
                            Some(acc)
                        }
                    },
                    _ => None,
                }
            }
        },
        _ => Some(acc),
    }
}

/// What a `(.._circle ...)` list names, if anything: the leading tag
/// must end in `_circle`.
pub open spec fn spec_circle_from(m: NodeModel) -> Option<FootprintCircleView> {
    match m {
        NodeModel::List(es) => {
            if es.len() >= 1 {
                match es[0] {
                    NodeModel::Symbol(tag) => {
                        if spec_ends_with(tag, "_circle"@) {
                            spec_fold(FootprintCircle::spec_default(), es.drop_first(), |a: FootprintCircleView, c: NodeModel| spec_circle_step(a, c))
                        } else {
                            None
                        }
                    },
                    _ => None,
                }
            } else {
                None
            }
        },
        _ => None,
    }
}

impl FootprintCircle {
    /// Reads this shape from its tagged list. Unknown fields are
    /// tolerated and skipped.
    pub fn from_sexpr(e: SExpr) -> (r: Result<FootprintCircle, ParserError>)
        ensures
            match spec_circle_from(e.model()) {
                Some(v) => r matches Ok(g) && g.model() == v,
                None => r is Err,
            },
    {
        let ghost stepf = |a: FootprintCircleView, c: NodeModel| spec_circle_step(a, c);
        let mut list = match e.as_list() {
            Ok(l) => l,
            Err(er) => {
                return Err(er);
            },
        };
        let ghost items = list.0@;
        proof {
            lemma_models_of(items);
        }
        let sym = match list.next_symbol() {
            Ok(s) => s,
            Err(er) => {
                return Err(er);
            },
        };
        if !str_ends_with(sym.as_str(), "_circle") {
            return Err(ParserError::Unexpected {
                expected: String::from_str("_circle"),
                found: sym.0,
            });
        }
        proof {
            assert(list.0@ =~= items.drop_first());
            assert(models_of(items).drop_first() =~= models_of(items).skip(1));
        }
        let mut g = FootprintCircle {
            center: Point { x: Scalar { units: 0 }, y: Scalar { units: 0 } },
            end: Point { x: Scalar { units: 0 }, y: Scalar { units: 0 } },
            layer: Layer(String::new()),
            stroke: Stroke::default_value(),
            uuid: Uuid(String::new()),
            fill: false,
            width: Scalar { units: 0 },
            locked: false,
        };
        let ghost mut k: int = 1;
        loop
            invariant
                models_of(items).len() == items.len(),
                items.len() >= 1,
                1 <= k <= items.len(),
                list.0@ =~= items.skip(k),
                forall|i: int| 0 <= i < items.len() ==> #[trigger] models_of(items)[i]
                    == items[i].model(),
                spec_fold(FootprintCircle::spec_default(), models_of(items).drop_first(), stepf)
                    == spec_fold(g.model(), models_of(items).skip(k), stepf),
                spec_circle_from(e.model()) == spec_fold(
                    FootprintCircle::spec_default(),
                    models_of(items).drop_first(),
                    stepf,
                ),
                stepf == (|a: FootprintCircleView, c: NodeModel| spec_circle_step(a, c)),
            ensures
                list.0@.len() == 0,
                spec_circle_from(e.model()) == spec_fold(
                    g.model(),
                    models_of(items).skip(k),
                    stepf,
                ),
                models_of(items).skip(k).len() == 0,
            decreases list.0@.len(),
        {
            proof {
                assert(models_of(items).skip(k).len() == list.0@.len());
                if list.0@.len() > 0 {
                    assert(items.skip(k)[0] == items[k]);
                    assert(models_of(items).skip(k)[0] == models_of(items)[k]);
                }
            }
            let nxt = match list.next_maybe() {
                Some(c) => c,
                None => {
                    break;
                },
            };
            match nxt {
                SExpr::Symbol(kw) => {
                    if str_eq(kw.as_str(), "locked") {
                        g.locked = true;
                    }
                },
                SExpr::List(attr) => {
                    proof {
                        lemma_models_of(attr.0@);
                    }
                    let code: u32 = match attr.peek_name() {
                        Ok(name) => {
                            if str_eq(name, "center") {
                                1
                            } else if str_eq(name, "end") {
                                2
                            } else if str_eq(name, "layer") {
                                3
                            } else if str_eq(name, "stroke") {
                                4
                            } else if str_eq(name, "uuid") {
                                5
                            } else if str_eq(name, "fill") {
                                6
                            } else if str_eq(name, "width") {
                                7
                            } else {
                                0
                            }
                        },
                        Err(er) => {
                            return Err(er);
                        },
                    };
                    if code == 1 {
                        let v = match Point::from_sexpr(SExpr::List(attr)) {
                            Ok(v) => v,
                            Err(er) => {
                                return Err(er);
                            },
                        };
                        g.center = v;
                    } else if code == 2 {
                        let v = match Point::from_sexpr(SExpr::List(attr)) {
                            Ok(v) => v,
                            Err(er) => {
                                return Err(er);
                            },
                        };
                        g.end = v;
                    } else if code == 3 {
                        let v = match Layer::from_sexpr(SExpr::List(attr)) {
                            Ok(v) => v,
                            Err(er) => {
                                return Err(er);
                            },
                        };
                        g.layer = v;
                    } else if code == 4 {
                        let v = match Stroke::from_sexpr(SExpr::List(attr)) {
                            Ok(v) => v,
                            Err(er) => {
                                return Err(er);
                            },
                        };
                        g.stroke = v;
                    } else if code == 5 {
                        let v = match Uuid::from_sexpr(SExpr::List(attr)) {
                            Ok(v) => v,
                            Err(er) => {
                                return Err(er);
                            },
                        };
                        g.uuid = v;
                    } else if code == 6 {
                        let v = match field_fill(attr) {
                            Ok(v) => v,
                            Err(er) => {
                                return Err(er);
                            },
                        };
                        g.fill = v;
                    } else if code == 7 {
                        let v = match field_scalar(attr) {
                            Ok(v) => v,
                            Err(er) => {
                                return Err(er);
                            },
                        };
                        g.width = v;
                    }
                },
                _ => {},
            }
            proof {
                assert(items.skip(k).drop_first() =~= items.skip(k + 1));
                assert(models_of(items).skip(k).drop_first() =~= models_of(items).skip(k + 1));
                k = k + 1;
            }
        }
        Ok(g)
    }
}

/// An arc given by its start, a midpoint along it, and its end.
#[derive(Clone, Debug)]
pub struct FootprintArc {
    pub start: Point,
    pub mid: Point,
    pub end: Point,
    pub layer: Layer,
    pub stroke: Stroke,
    pub uuid: Uuid,
    pub width: Scalar,
    /// Locked flag.
    pub locked: bool,
}

/// The mathematical value of a `FootprintArc`.
pub struct FootprintArcView {
    pub start: Point,
    pub mid: Point,
    pub end: Point,
    pub layer: Seq<char>,
    pub stroke: Stroke,
    pub uuid: Seq<char>,
    pub width: Scalar,
    pub locked: bool,
}

impl FootprintArc {
    /// The ghost value of this shape.
    pub open spec fn model(self) -> FootprintArcView {
        FootprintArcView {
            start: self.start,
            mid: self.mid,
            end: self.end,
            layer: self.layer.0@,
            stroke: self.stroke,
            uuid: self.uuid.0@,
            width: self.width,
            locked: self.locked,
        }
    }

    /// The all-defaults value.
    pub open spec fn spec_default() -> FootprintArcView {
        FootprintArcView {
            start: Point { x: Scalar { units: 0 }, y: Scalar { units: 0 } },
            mid: Point { x: Scalar { units: 0 }, y: Scalar { units: 0 } },
            end: Point { x: Scalar { units: 0 }, y: Scalar { units: 0 } },
            layer: Seq::empty(),
            stroke: Stroke::spec_default(),
            uuid: Seq::empty(),
            width: Scalar { units: 0 },
            locked: false,
        }
    }
}

/// One child's effect on a `FootprintArc` being read: recognized fields
/// are applied, unknown tags and atoms are tolerated.
pub open spec fn spec_arc_step(acc: FootprintArcView, m: NodeModel) -> Option<FootprintArcView> {
    match m {
        NodeModel::Symbol(kw) => {
            if kw == "locked"@ {
                Some(FootprintArcView { locked: true, ..acc })
            } else {
                Some(acc)
            }
        },
        NodeModel::List(es) => {
            if es.len() == 0 {
                None
            } else {
                match es[0] {
                    NodeModel::Symbol(tag) => {
                        if tag == "start"@ {
                            match spec_point_from(m) {
                                Some(v) => Some(FootprintArcView { start: v, ..acc }),
                                None => None,
                            }
                        } else if tag == "mid"@ {
                            match spec_point_from(m) {
                                Some(v) => Some(FootprintArcView { mid: v, ..acc }),
                                None => None,
                            }
                        } else if tag == "end"@ {
                            match spec_point_from(m) {
                                Some(v) => Some(FootprintArcView { end: v, ..acc }),
                                None => None,
                            }
                        } else if tag == "layer"@ {
                            match spec_layer_from(m) {
                                Some(v) => Some(FootprintArcView { layer: v, ..acc }),
                                None => None,
                            }
                        } else if tag == "stroke"@ {
                            match spec_stroke_from(m) {
                                Some(v) => Some(FootprintArcView { stroke: v, ..acc }),
                                None => None,
                            }
                        } else if tag == "uuid"@ {
                            match spec_uuid_from(m) {
                                Some(v) => Some(FootprintArcView { uuid: v, ..acc }),
                                None => None,
                            }
                        } else if tag == "width"@ {
                            match spec_field_scalar(es) {
                                Some(v) => Some(FootprintArcView { width: Scalar { units: v as i64 }, ..acc }),
                                None => None,
                            }
                        } else {
                            Some(acc)
                        }
                    },
                    _ => None,
                }
            }
        },
        _ => Some(acc),
    }
}

/// What a `(.._arc ...)` list names, if anything: the leading tag
/// must end in `_arc`.
pub open spec fn spec_arc_from(m: NodeModel) -> Option<FootprintArcView> {
    match m {
        NodeModel::List(es) => {
            if es.len() >= 1 {
                match es[0] {
                    NodeModel::Symbol(tag) => {
                        if spec_ends_with(tag, "_arc"@) {
                            spec_fold(FootprintArc::spec_default(), es.drop_first(), |a: FootprintArcView, c: NodeModel| spec_arc_step(a, c))
                        } else {
                            None
                        }
                    },
                    _ => None,
                }
            } else {
                None
            }
        },
        _ => None,
    }
}

impl FootprintArc {
    /// Reads this shape from its tagged list. Unknown fields are
    /// tolerated and skipped.
    pub fn from_sexpr(e: SExpr) -> (r: Result<FootprintArc, ParserError>)
        ensures
            match spec_arc_from(e.model()) {
                Some(v) => r matches Ok(g) && g.model() == v,
                None => r is Err,
            },
    {
        let ghost stepf = |a: FootprintArcView, c: NodeModel| spec_arc_step(a, c);
        let mut list = match e.as_list() {
            Ok(l) => l,
            Err(er) => {
                return Err(er);
            },
        };
        let ghost items = list.0@;
        proof {
            lemma_models_of(items);
        }
        let sym = match list.next_symbol() {
            Ok(s) => s,
            Err(er) => {
                return Err(er);
            },
        };
        if !str_ends_with(sym.as_str(), "_arc") {
            return Err(ParserError::Unexpected {
                expected: String::from_str("_arc"),
                found: sym.0,
            });
        }
        proof {
            assert(list.0@ =~= items.drop_first());
            assert(models_of(items).drop_first() =~= models_of(items).skip(1));
        }
        let mut g = FootprintArc {
            start: Point { x: Scalar { units: 0 }, y: Scalar { units: 0 } },
            mid: Point { x: Scalar { units: 0 }, y: Scalar { units: 0 } },
            end: Point { x: Scalar { units: 0 }, y: Scalar { units: 0 } },
            layer: Layer(String::new()),
            stroke: Stroke::default_value(),
            uuid: Uuid(String::new()),
            width: Scalar { units: 0 },
            locked: false,
        };
        let ghost mut k: int = 1;
        loop
            invariant
                models_of(items).len() == items.len(),
                items.len() >= 1,
                1 <= k <= items.len(),
                list.0@ =~= items.skip(k),
                forall|i: int| 0 <= i < items.len() ==> #[trigger] models_of(items)[i]
                    == items[i].model(),
                spec_fold(FootprintArc::spec_default(), models_of(items).drop_first(), stepf)
                    == spec_fold(g.model(), models_of(items).skip(k), stepf),
                spec_arc_from(e.model()) == spec_fold(
                    FootprintArc::spec_default(),
                    models_of(items).drop_first(),
                    stepf,
                ),
                stepf == (|a: FootprintArcView, c: NodeModel| spec_arc_step(a, c)),
            ensures
                list.0@.len() == 0,
                spec_arc_from(e.model()) == spec_fold(
                    g.model(),
                    models_of(items).skip(k),
                    stepf,
                ),
                models_of(items).skip(k).len() == 0,
            decreases list.0@.len(),
        {
            proof {
                assert(models_of(items).skip(k).len() == list.0@.len());
                if list.0@.len() > 0 {
                    assert(items.skip(k)[0] == items[k]);
                    assert(models_of(items).skip(k)[0] == models_of(items)[k]);
                }
            }
            let nxt = match list.next_maybe() {
                Some(c) => c,
                None => {
                    break;
                },
            };
            match nxt {
                SExpr::Symbol(kw) => {
                    if str_eq(kw.as_str(), "locked") {
                        g.locked = true;
                    }
                },
                SExpr::List(attr) => {
                    proof {
                        lemma_models_of(attr.0@);
                    }
                    let code: u32 = match attr.peek_name() {
                        Ok(name) => {
                            if str_eq(name, "start") {
                                1
                            } else if str_eq(name, "mid") {
                                2
                            } else if str_eq(name, "end") {
                                3
                            } else if str_eq(name, "layer") {
                                4
                            } else if str_eq(name, "stroke") {
                                5
                            } else if str_eq(name, "uuid") {
                                6
                            } else if str_eq(name, "width") {
                                7
                            } else {
                                0
                            }
                        },
                        Err(er) => {
                            return Err(er);
                        },
                    };
                    if code == 1 {
                        let v = match Point::from_sexpr(SExpr::List(attr)) {
                            Ok(v) => v,
                            Err(er) => {
                                return Err(er);
                            },
                        };
                        g.start = v;
                    } else if code == 2 {
                        let v = match Point::from_sexpr(SExpr::List(attr)) {
                            Ok(v) => v,
                            Err(er) => {
                                return Err(er);
                            },
                        };
                        g.mid = v;
                    } else if code == 3 {
                        let v = match Point::from_sexpr(SExpr::List(attr)) {
                            Ok(v) => v,
                            Err(er) => {
                                return Err(er);
                            },
                        };
                        g.end = v;
                    } else if code == 4 {
                        let v = match Layer::from_sexpr(SExpr::List(attr)) {
                            Ok(v) => v,
                            Err(er) => {
                                return Err(er);
                            },
                        };
                        g.layer = v;
                    } else if code == 5 {
                        let v = match Stroke::from_sexpr(SExpr::List(attr)) {
                            Ok(v) => v,
                            Err(er) => {
                                return Err(er);
                            },
                        };
                        g.stroke = v;
                    } else if code == 6 {
                        let v = match Uuid::from_sexpr(SExpr::List(attr)) {
                            Ok(v) => v,
                            Err(er) => {
                                return Err(er);
                            },
                        };
                        g.uuid = v;
                    } else if code == 7 {
                        let v = match field_scalar(attr) {
                            Ok(v) => v,
                            Err(er) => {
                                return Err(er);
                            },
                        };
                        g.width = v;
                    }
                },
                _ => {},
            }
            proof {
                assert(items.skip(k).drop_first() =~= items.skip(k + 1));
                assert(models_of(items).skip(k).drop_first() =~= models_of(items).skip(k + 1));
                k = k + 1;
            }
        }
        Ok(g)
    }
}

/// A polygon over an outline point list.
#[derive(Clone, Debug)]
pub struct FootprintPolygon {
    pub points: PointList,
    pub layer: Layer,
    pub stroke: Stroke,
    pub uuid: Uuid,
    pub width: Scalar,
    pub fill: bool,
    /// Locked flag.
    pub locked: bool,
}

/// The mathematical value of a `FootprintPolygon`.
pub struct FootprintPolygonView {
    pub points: Seq<Point>,
    pub layer: Seq<char>,
    pub stroke: Stroke,
    pub uuid: Seq<char>,
    pub width: Scalar,
    pub fill: bool,
    pub locked: bool,
}

impl FootprintPolygon {
    /// The ghost value of this shape.
    pub open spec fn model(self) -> FootprintPolygonView {
        FootprintPolygonView {
            points: self.points.0@,
            layer: self.layer.0@,
            stroke: self.stroke,
            uuid: self.uuid.0@,
            width: self.width,
            fill: self.fill,
            locked: self.locked,
        }
    }

    /// The all-defaults value.
    pub open spec fn spec_default() -> FootprintPolygonView {
        FootprintPolygonView {
            points: Seq::empty(),
            layer: Seq::empty(),
            stroke: Stroke::spec_default(),
            uuid: Seq::empty(),
            width: Scalar { units: 0 },
            fill: false,
            locked: false,
        }
    }
}

/// One child's effect on a `FootprintPolygon` being read: recognized fields
/// are applied, unknown tags and atoms are tolerated.
pub open spec fn spec_polygon_step(acc: FootprintPolygonView, m: NodeModel) -> Option<FootprintPolygonView> {
    match m {
        NodeModel::Symbol(kw) => {
            if kw == "locked"@ {
                Some(FootprintPolygonView { locked: true, ..acc })
            } else {
                Some(acc)
            }
        },
        NodeModel::List(es) => {
            if es.len() == 0 {
                None
            } else {
                match es[0] {
                    NodeModel::Symbol(tag) => {
                        if tag == "pts"@ {
                            match spec_point_list_from(m) {
                                Some(v) => Some(FootprintPolygonView { points: v, ..acc }),
                                None => None,
                            }
                        } else if tag == "layer"@ {
                            match spec_layer_from(m) {
                                Some(v) => Some(FootprintPolygonView { layer: v, ..acc }),
                                None => None,
                            }
                        } else if tag == "stroke"@ {
                            match spec_stroke_from(m) {
                                Some(v) => Some(FootprintPolygonView { stroke: v, ..acc }),
                                None => None,
                            }
                        } else if tag == "uuid"@ {
                            match spec_uuid_from(m) {
                                Some(v) => Some(FootprintPolygonView { uuid: v, ..acc }),
                                None => None,
                            }
                        } else if tag == "width"@ {
                            match spec_field_scalar(es) {
                                Some(v) => Some(FootprintPolygonView { width: Scalar { units: v as i64 }, ..acc }),
                                None => None,
                            }
                        } else if tag == "fill"@ {
                            match spec_field_fill(es) {
                                Some(v) => Some(FootprintPolygonView { fill: v, ..acc }),
                                None => None,
                            }
                        } else {
                            Some(acc)
                        }
                    },
                    _ => None,
                }
            }
        },
        _ => Some(acc),
    }
}

/// What a `(.._poly ...)` list names, if anything: the leading tag
/// must end in `_poly`.
pub open spec fn spec_polygon_from(m: NodeModel) -> Option<FootprintPolygonView> {
    match m {
        NodeModel::List(es) => {
            if es.len() >= 1 {
                match es[0] {
                    NodeModel::Symbol(tag) => {
                        if spec_ends_with(tag, "_poly"@) {
                            spec_fold(FootprintPolygon::spec_default(), es.drop_first(), |a: FootprintPolygonView, c: NodeModel| spec_polygon_step(a, c))
                        } else {
                            None
                        }
                    },
                    _ => None,
                }
            } else {
                None
            }
        },
        _ => None,
    }
}

impl FootprintPolygon {
    /// Reads this shape from its tagged list. Unknown fields are
    /// tolerated and skipped.
    pub fn from_sexpr(e: SExpr) -> (r: Result<FootprintPolygon, ParserError>)
        ensures
            match spec_polygon_from(e.model()) {
                Some(v) => r matches Ok(g) && g.model() == v,
                None => r is Err,
            },
    {
        let ghost stepf = |a: FootprintPolygonView, c: NodeModel| spec_polygon_step(a, c);
        let mut list = match e.as_list() {
            Ok(l) => l,
            Err(er) => {
                return Err(er);
            },
        };
        let ghost items = list.0@;
        proof {
            lemma_models_of(items);
        }
        let sym = match list.next_symbol() {
            Ok(s) => s,
            Err(er) => {
                return Err(er);
            },
        };
        if !str_ends_with(sym.as_str(), "_poly") {
            return Err(ParserError::Unexpected {
                expected: String::from_str("_poly"),
                found: sym.0,
            });
        }
        proof {
            assert(list.0@ =~= items.drop_first());
            assert(models_of(items).drop_first() =~= models_of(items).skip(1));
        }
        let mut g = FootprintPolygon {
            points: PointList(Vec::new()),
            layer: Layer(String::new()),
            stroke: Stroke::default_value(),
            uuid: Uuid(String::new()),
            width: Scalar { units: 0 },
            fill: false,
            locked: false,
        };
        let ghost mut k: int = 1;
        loop
            invariant
                models_of(items).len() == items.len(),
                items.len() >= 1,
                1 <= k <= items.len(),
                list.0@ =~= items.skip(k),
                forall|i: int| 0 <= i < items.len() ==> #[trigger] models_of(items)[i]
                    == items[i].model(),
                spec_fold(FootprintPolygon::spec_default(), models_of(items).drop_first(), stepf)
                    == spec_fold(g.model(), models_of(items).skip(k), stepf),
                spec_polygon_from(e.model()) == spec_fold(
                    FootprintPolygon::spec_default(),
                    models_of(items).drop_first(),
                    stepf,
                ),
                stepf == (|a: FootprintPolygonView, c: NodeModel| spec_polygon_step(a, c)),
            ensures
                list.0@.len() == 0,
                spec_polygon_from(e.model()) == spec_fold(
                    g.model(),
                    models_of(items).skip(k),
                    stepf,
                ),
                models_of(items).skip(k).len() == 0,
            decreases list.0@.len(),
        {
            proof {
                assert(models_of(items).skip(k).len() == list.0@.len());
                if list.0@.len() > 0 {
                    assert(items.skip(k)[0] == items[k]);
                    assert(models_of(items).skip(k)[0] == models_of(items)[k]);
                }
            }
            let nxt = match list.next_maybe() {
                Some(c) => c,
                None => {
                    break;
                },
            };
            match nxt {
                SExpr::Symbol(kw) => {
                    if str_eq(kw.as_str(), "locked") {
                        g.locked = true;
                    }
                },
                SExpr::List(attr) => {
                    proof {
                        lemma_models_of(attr.0@);
                    }
                    let code: u32 = match attr.peek_name() {
                        Ok(name) => {
                            if str_eq(name, "pts") {
                                1
                            } else if str_eq(name, "layer") {
                                2
                            } else if str_eq(name, "stroke") {
                                3
                            } else if str_eq(name, "uuid") {
                                4
                            } else if str_eq(name, "width") {
                                5
                            } else if str_eq(name, "fill") {
                                6
                            } else {
                                0
                            }
                        },
                        Err(er) => {
                            return Err(er);
                        },
                    };
                    if code == 1 {
                        let v = match PointList::from_sexpr(SExpr::List(attr)) {
                            Ok(v) => v,
                            Err(er) => {
                                return Err(er);
                            },
                        };
                        g.points = v;
                    } else if code == 2 {
                        let v = match Layer::from_sexpr(SExpr::List(attr)) {
                            Ok(v) => v,
                            Err(er) => {
                                return Err(er);
                            },
                        };
                        g.layer = v;
                    } else if code == 3 {
                        let v = match Stroke::from_sexpr(SExpr::List(attr)) {
                            Ok(v) => v,
                            Err(er) => {
                                return Err(er);
                            },
                        };
                        g.stroke = v;
                    } else if code == 4 {
                        let v = match Uuid::from_sexpr(SExpr::List(attr)) {
                            Ok(v) => v,
                            Err(er) => {
                                return Err(er);
                            },
                        };
                        g.uuid = v;
                    } else if code == 5 {
                        let v = match field_scalar(attr) {
                            Ok(v) => v,
                            Err(er) => {
                                return Err(er);
                            },
                        };
                        g.width = v;
                    } else if code == 6 {
                        let v = match field_fill(attr) {
                            Ok(v) => v,
                            Err(er) => {
                                return Err(er);
                            },
                        };
                        g.fill = v;
                    }
                },
                _ => {},
            }
            proof {
                assert(items.skip(k).drop_first() =~= items.skip(k + 1));
                assert(models_of(items).skip(k).drop_first() =~= models_of(items).skip(k + 1));
                k = k + 1;
            }
        }
        Ok(g)
    }
}

/// A cubic Bezier curve over its control points.
#[derive(Clone, Debug)]
pub struct FootprintCurve {
    pub points: PointList,
    pub layer: Layer,
    pub stroke: Stroke,
    pub uuid: Uuid,
    pub width: Scalar,
    /// Locked flag.
    pub locked: bool,
}

/// The mathematical value of a `FootprintCurve`.
pub struct FootprintCurveView {
    pub points: Seq<Point>,
    pub layer: Seq<char>,
    pub stroke: Stroke,
    pub uuid: Seq<char>,
    pub width: Scalar,
    pub locked: bool,
}

impl FootprintCurve {
    /// The ghost value of this shape.
    pub open spec fn model(self) -> FootprintCurveView {
        FootprintCurveView {
            points: self.points.0@,
            layer: self.layer.0@,
            stroke: self.stroke,
            uuid: self.uuid.0@,
            width: self.width,
            locked: self.locked,
        }
    }

    /// The all-defaults value.
    pub open spec fn spec_default() -> FootprintCurveView {
        FootprintCurveView {
            points: Seq::empty(),
            layer: Seq::empty(),
            stroke: Stroke::spec_default(),
            uuid: Seq::empty(),
            width: Scalar { units: 0 },
            locked: false,
        }
    }
}

/// One child's effect on a `FootprintCurve` being read: recognized fields
/// are applied, unknown tags and atoms are tolerated.
pub open spec fn spec_curve_step(acc: FootprintCurveView, m: NodeModel) -> Option<FootprintCurveView> {
    match m {
        NodeModel::Symbol(kw) => {
            if kw == "locked"@ {
                Some(FootprintCurveView { locked: true, ..acc })
            } else {
                Some(acc)
            }
        },
        NodeModel::List(es) => {
            if es.len() == 0 {
                None
            } else {
                match es[0] {
                    NodeModel::Symbol(tag) => {
                        if tag == "pts"@ {
                            match spec_point_list_from(m) {
                                Some(v) => Some(FootprintCurveView { points: v, ..acc }),
                                None => None,
                            }
                        } else if tag == "layer"@ {
                            match spec_layer_from(m) {
                                Some(v) => Some(FootprintCurveView { layer: v, ..acc }),
                                None => None,
                            }
                        } else if tag == "stroke"@ {
                            match spec_stroke_from(m) {
                                Some(v) => Some(FootprintCurveView { stroke: v, ..acc }),
                                None => None,
                            }
                        } else if tag == "uuid"@ {
                            match spec_uuid_from(m) {
                                Some(v) => Some(FootprintCurveView { uuid: v, ..acc }),
                                None => None,
                            }
                        } else if tag == "width"@ {
                            match spec_field_scalar(es) {
                                Some(v) => Some(FootprintCurveView { width: Scalar { units: v as i64 }, ..acc }),
                                None => None,
                            }
                        } else {
                            Some(acc)
                        }
                    },
                    _ => None,
                }
            }
        },
        _ => Some(acc),
    }
}

/// What a `(.._curve ...)` list names, if anything: the leading tag
/// must end in `_curve`.
pub open spec fn spec_curve_from(m: NodeModel) -> Option<FootprintCurveView> {
    match m {
        NodeModel::List(es) => {
            if es.len() >= 1 {
                match es[0] {
                    NodeModel::Symbol(tag) => {
                        if spec_ends_with(tag, "_curve"@) {
                            spec_fold(FootprintCurve::spec_default(), es.drop_first(), |a: FootprintCurveView, c: NodeModel| spec_curve_step(a, c))
                        } else {
                            None
                        }
                    },
                    _ => None,
                }
            } else {
                None
            }
        },
        _ => None,
    }
}

impl FootprintCurve {
    /// Reads this shape from its tagged list. Unknown fields are
    /// tolerated and skipped.
    pub fn from_sexpr(e: SExpr) -> (r: Result<FootprintCurve, ParserError>)
        ensures
            match spec_curve_from(e.model()) {
                Some(v) => r matches Ok(g) && g.model() == v,
                None => r is Err,
            },
    {
        let ghost stepf = |a: FootprintCurveView, c: NodeModel| spec_curve_step(a, c);
        let mut list = match e.as_list() {
            Ok(l) => l,
            Err(er) => {
                return Err(er);
            },
        };
        let ghost items = list.0@;
        proof {
            lemma_models_of(items);
        }
        let sym = match list.next_symbol() {
            Ok(s) => s,
            Err(er) => {
                return Err(er);
            },
        };
        if !str_ends_with(sym.as_str(), "_curve") {
            return Err(ParserError::Unexpected {
                expected: String::from_str("_curve"),
                found: sym.0,
            });
        }
        proof {
            assert(list.0@ =~= items.drop_first());
            assert(models_of(items).drop_first() =~= models_of(items).skip(1));
        }
        let mut g = FootprintCurve {
            points: PointList(Vec::new()),
            layer: Layer(String::new()),
            stroke: Stroke::default_value(),
            uuid: Uuid(String::new()),
            width: Scalar { units: 0 },
            locked: false,
        };
        let ghost mut k: int = 1;
        loop
            invariant
                models_of(items).len() == items.len(),
                items.len() >= 1,
                1 <= k <= items.len(),
                list.0@ =~= items.skip(k),
                forall|i: int| 0 <= i < items.len() ==> #[trigger] models_of(items)[i]
                    == items[i].model(),
                spec_fold(FootprintCurve::spec_default(), models_of(items).drop_first(), stepf)
                    == spec_fold(g.model(), models_of(items).skip(k), stepf),
                spec_curve_from(e.model()) == spec_fold(
                    FootprintCurve::spec_default(),
                    models_of(items).drop_first(),
                    stepf,
                ),
                stepf == (|a: FootprintCurveView, c: NodeModel| spec_curve_step(a, c)),
            ensures
                list.0@.len() == 0,
                spec_curve_from(e.model()) == spec_fold(
                    g.model(),
                    models_of(items).skip(k),
                    stepf,
                ),
                models_of(items).skip(k).len() == 0,
            decreases list.0@.len(),
        {
            proof {
                assert(models_of(items).skip(k).len() == list.0@.len());
                if list.0@.len() > 0 {
                    assert(items.skip(k)[0] == items[k]);
                    assert(models_of(items).skip(k)[0] == models_of(items)[k]);
                }
            }
            let nxt = match list.next_maybe() {
                Some(c) => c,
                None => {
                    break;
                },
            };
            match nxt {
                SExpr::Symbol(kw) => {
                    if str_eq(kw.as_str(), "locked") {
                        g.locked = true;
                    }
                },
                SExpr::List(attr) => {
                    proof {
                        lemma_models_of(attr.0@);
                    }
                    let code: u32 = match attr.peek_name() {
                        Ok(name) => {
                            if str_eq(name, "pts") {
                                1
                            } else if str_eq(name, "layer") {
                                2
                            } else if str_eq(name, "stroke") {
                                3
                            } else if str_eq(name, "uuid") {
                                4
                            } else if str_eq(name, "width") {
                                5
                            } else {
                                0
                            }
                        },
                        Err(er) => {
                            return Err(er);
                        },
                    };
                    if code == 1 {
                        let v = match PointList::from_sexpr(SExpr::List(attr)) {
                            Ok(v) => v,
                            Err(er) => {
                                return Err(er);
                            },
                        };
                        g.points = v;
                    } else if code == 2 {
                        let v = match Layer::from_sexpr(SExpr::List(attr)) {
                            Ok(v) => v,
                            Err(er) => {
                                return Err(er);
                            },
                        };
                        g.layer = v;
                    } else if code == 3 {
                        let v = match Stroke::from_sexpr(SExpr::List(attr)) {
                            Ok(v) => v,
                            Err(er) => {
                                return Err(er);
                            },
                        };
                        g.stroke = v;
                    } else if code == 4 {
                        let v = match Uuid::from_sexpr(SExpr::List(attr)) {
                            Ok(v) => v,
                            Err(er) => {
                                return Err(er);
                            },
                        };
                        g.uuid = v;
                    } else if code == 5 {
                        let v = match field_scalar(attr) {
                            Ok(v) => v,
                            Err(er) => {
                                return Err(er);
                            },
                        };
                        g.width = v;
                    }
                },
                _ => {},
            }
            proof {
                assert(items.skip(k).drop_first() =~= items.skip(k + 1));
                assert(models_of(items).skip(k).drop_first() =~= models_of(items).skip(k + 1));
                k = k + 1;
            }
        }
        Ok(g)
    }
}

/// A text item anchored at a position.
#[derive(Clone, Debug)]
pub struct FootprintText {
    /// What the text stands for.
    pub text_type: FootprintTextType,
    /// Text content.
    pub text: String,
    pub position: Position,
    pub layer: Layer,
    pub uuid: Uuid,
    /// Unlocked orientation flag.
    pub unlocked: bool,
    /// Hidden flag.
    pub hide: bool,
}

/// The mathematical value of a `FootprintText`.
pub struct FootprintTextView {
    pub text_type: FootprintTextType,
    pub text: Seq<char>,
    pub position: Position,
    pub layer: Seq<char>,
    pub uuid: Seq<char>,
    pub unlocked: bool,
    pub hide: bool,
}

impl FootprintText {
    /// The ghost value of this shape.
    pub open spec fn model(self) -> FootprintTextView {
        FootprintTextView {
            text_type: self.text_type,
            text: self.text@,
            position: self.position,
            layer: self.layer.0@,
            uuid: self.uuid.0@,
            unlocked: self.unlocked,
            hide: self.hide,
        }
    }

    /// The all-defaults value.
    pub open spec fn spec_default() -> FootprintTextView {
        FootprintTextView {
            text_type: FootprintTextType::Reference,
            text: Seq::empty(),
            position: Position { x: Scalar { units: 0 }, y: Scalar { units: 0 }, angle: None },
            layer: Seq::empty(),
            uuid: Seq::empty(),
            unlocked: false,
            hide: false,
        }
    }
}

/// One child's effect on a `FootprintText` being read: recognized fields
/// are applied, unknown tags and atoms are tolerated.
pub open spec fn spec_text_step(acc: FootprintTextView, m: NodeModel) -> Option<FootprintTextView> {
    match m {
        NodeModel::Symbol(kw) => {
            if kw == "hide"@ {
                Some(FootprintTextView { hide: true, ..acc })
            } else if kw == "unlocked"@ {
                Some(FootprintTextView { unlocked: true, ..acc })
            } else if kw == "reference"@ {
                Some(FootprintTextView { text_type: FootprintTextType::Reference, ..acc })
            } else if kw == "value"@ {
                Some(FootprintTextView { text_type: FootprintTextType::Value, ..acc })
            } else if kw == "user"@ {
                Some(FootprintTextView { text_type: FootprintTextType::User, ..acc })
            } else {
                Some(acc)
            }
        },
        NodeModel::Value(t) => Some(FootprintTextView { text: t, ..acc }),
        NodeModel::List(es) => {
            if es.len() == 0 {
                None
            } else {
                match es[0] {
                    NodeModel::Symbol(tag) => {
                        if tag == "at"@ {
                            match spec_position_from(m) {
                                Some(v) => Some(FootprintTextView { position: v, ..acc }),
                                None => None,
                            }
                        } else if tag == "layer"@ {
                            match spec_layer_from(m) {
                                Some(v) => Some(FootprintTextView { layer: v, ..acc }),
                                None => None,
                            }
                        } else if tag == "uuid"@ {
                            match spec_uuid_from(m) {
                                Some(v) => Some(FootprintTextView { uuid: v, ..acc }),
                                None => None,
                            }
                        } else {
                            Some(acc)
                        }
                    },
                    _ => None,
                }
            }
        },
        _ => Some(acc),
    }
}

/// What a `(.._text ...)` list names, if anything: the leading tag
/// must end in `_text`.
pub open spec fn spec_text_from(m: NodeModel) -> Option<FootprintTextView> {
    match m {
        NodeModel::List(es) => {
            if es.len() >= 1 {
                match es[0] {
                    NodeModel::Symbol(tag) => {
                        if spec_ends_with(tag, "_text"@) {
                            spec_fold(FootprintText::spec_default(), es.drop_first(), |a: FootprintTextView, c: NodeModel| spec_text_step(a, c))
                        } else {
                            None
                        }
                    },
                    _ => None,
                }
            } else {
                None
            }
        },
        _ => None,
    }
}

impl FootprintText {
    /// Reads this shape from its tagged list. Unknown fields are
    /// tolerated and skipped.
    pub fn from_sexpr(e: SExpr) -> (r: Result<FootprintText, ParserError>)
        ensures
            match spec_text_from(e.model()) {
                Some(v) => r matches Ok(g) && g.model() == v,
                None => r is Err,
            },
    {
        let ghost stepf = |a: FootprintTextView, c: NodeModel| spec_text_step(a, c);
        let mut list = match e.as_list() {
            Ok(l) => l,
            Err(er) => {
                return Err(er);
            },
        };
        let ghost items = list.0@;
        proof {
            lemma_models_of(items);
        }
        let sym = match list.next_symbol() {
            Ok(s) => s,
            Err(er) => {
                return Err(er);
            },
        };
        if !str_ends_with(sym.as_str(), "_text") {
            return Err(ParserError::Unexpected {
                expected: String::from_str("_text"),
                found: sym.0,
            });
        }
        proof {
            assert(list.0@ =~= items.drop_first());
            assert(models_of(items).drop_first() =~= models_of(items).skip(1));
        }
        let mut g = FootprintText {
            text_type: FootprintTextType::Reference,
            text: String::new(),
            position: Position { x: Scalar { units: 0 }, y: Scalar { units: 0 }, angle: None },
            layer: Layer(String::new()),
            uuid: Uuid(String::new()),
            unlocked: false,
            hide: false,
        };
        let ghost mut k: int = 1;
        loop
            invariant
                models_of(items).len() == items.len(),
                items.len() >= 1,
                1 <= k <= items.len(),
                list.0@ =~= items.skip(k),
                forall|i: int| 0 <= i < items.len() ==> #[trigger] models_of(items)[i]
                    == items[i].model(),
                spec_fold(FootprintText::spec_default(), models_of(items).drop_first(), stepf)
                    == spec_fold(g.model(), models_of(items).skip(k), stepf),
                spec_text_from(e.model()) == spec_fold(
                    FootprintText::spec_default(),
                    models_of(items).drop_first(),
                    stepf,
                ),
                stepf == (|a: FootprintTextView, c: NodeModel| spec_text_step(a, c)),
            ensures
                list.0@.len() == 0,
                spec_text_from(e.model()) == spec_fold(
                    g.model(),
                    models_of(items).skip(k),
                    stepf,
                ),
                models_of(items).skip(k).len() == 0,
            decreases list.0@.len(),
        {
            proof {
                assert(models_of(items).skip(k).len() == list.0@.len());
                if list.0@.len() > 0 {
                    assert(items.skip(k)[0] == items[k]);
                    assert(models_of(items).skip(k)[0] == models_of(items)[k]);
                }
            }
            let nxt = match list.next_maybe() {
                Some(c) => c,
                None => {
                    break;
                },
            };
            match nxt {
                SExpr::Symbol(kw) => {
                    if str_eq(kw.as_str(), "hide") {
                        g.hide = true;
                    } else if str_eq(kw.as_str(), "unlocked") {
                        g.unlocked = true;
                    } else if str_eq(kw.as_str(), "reference") {
                        g.text_type = FootprintTextType::Reference;
                    } else if str_eq(kw.as_str(), "value") {
                        g.text_type = FootprintTextType::Value;
                    } else if str_eq(kw.as_str(), "user") {
                        g.text_type = FootprintTextType::User;
                    }
                },
                SExpr::Value(v) => {
                    g.text = v.0;
                },
                SExpr::List(attr) => {
                    proof {
                        lemma_models_of(attr.0@);
                    }
                    let code: u32 = match attr.peek_name() {
                        Ok(name) => {
                            if str_eq(name, "at") {
                                1
                            } else if str_eq(name, "layer") {
                                2
                            } else if str_eq(name, "uuid") {
                                3
                            } else {
                                0
                            }
                        },
                        Err(er) => {
                            return Err(er);
                        },
                    };
                    if code == 1 {
                        let v = match Position::from_sexpr(SExpr::List(attr)) {
                            Ok(v) => v,
                            Err(er) => {
                                return Err(er);
                            },
                        };
                        g.position = v;
                    } else if code == 2 {
                        let v = match Layer::from_sexpr(SExpr::List(attr)) {
                            Ok(v) => v,
                            Err(er) => {
                                return Err(er);
                            },
                        };
                        g.layer = v;
                    } else if code == 3 {
                        let v = match Uuid::from_sexpr(SExpr::List(attr)) {
                            Ok(v) => v,
                            Err(er) => {
                                return Err(er);
                            },
                        };
                        g.uuid = v;
                    }
                },
                _ => {},
            }
            proof {
                assert(items.skip(k).drop_first() =~= items.skip(k + 1));
                assert(models_of(items).skip(k).drop_first() =~= models_of(items).skip(k + 1));
                k = k + 1;
            }
        }
        Ok(g)
    }
}

/// A text box spanning two corners.
#[derive(Clone, Debug)]
pub struct FootprintTextBox {
    /// Text content.
    pub text: String,
    pub start: Option<Point>,
    pub end: Option<Point>,
    pub uuid: Uuid,
    pub layer: Layer,
    pub angle: Option<Scalar>,
    pub stroke: Option<Stroke>,
    pub points: PointList,
    /// Locked flag.
    pub locked: bool,
}

/// The mathematical value of a `FootprintTextBox`.
pub struct FootprintTextBoxView {
    pub text: Seq<char>,
    pub start: Option<Point>,
    pub end: Option<Point>,
    pub uuid: Seq<char>,
    pub layer: Seq<char>,
    pub angle: Option<Scalar>,
    pub stroke: Option<Stroke>,
    pub points: Seq<Point>,
    pub locked: bool,
}

impl FootprintTextBox {
    /// The ghost value of this shape.
    pub open spec fn model(self) -> FootprintTextBoxView {
        FootprintTextBoxView {
            text: self.text@,
            start: self.start,
            end: self.end,
            uuid: self.uuid.0@,
            layer: self.layer.0@,
            angle: self.angle,
            stroke: self.stroke,
            points: self.points.0@,
            locked: self.locked,
        }
    }

    /// The all-defaults value.
    pub open spec fn spec_default() -> FootprintTextBoxView {
        FootprintTextBoxView {
            text: Seq::empty(),
            start: None,
            end: None,
            uuid: Seq::empty(),
            layer: Seq::empty(),
            angle: None,
            stroke: None,
            points: Seq::empty(),
            locked: false,
        }
    }
}

/// One child's effect on a `FootprintTextBox` being read: recognized fields
/// are applied, unknown tags and atoms are tolerated.
pub open spec fn spec_textbox_step(acc: FootprintTextBoxView, m: NodeModel) -> Option<FootprintTextBoxView> {
    match m {
        NodeModel::Symbol(kw) => {
            if kw == "locked"@ {
                Some(FootprintTextBoxView { locked: true, ..acc })
            } else {
                Some(acc)
            }
        },
        NodeModel::Value(t) => Some(FootprintTextBoxView { text: t, ..acc }),
        NodeModel::List(es) => {
            if es.len() == 0 {
                None
            } else {
                match es[0] {
                    NodeModel::Symbol(tag) => {
                        if tag == "start"@ {
                            match spec_point_from(m) {
                                Some(v) => Some(FootprintTextBoxView { start: Some(v), ..acc }),
                                None => None,
                            }
                        } else if tag == "end"@ {
                            match spec_point_from(m) {
                                Some(v) => Some(FootprintTextBoxView { end: Some(v), ..acc }),
                                None => None,
                            }
                        } else if tag == "uuid"@ {
                            match spec_uuid_from(m) {
                                Some(v) => Some(FootprintTextBoxView { uuid: v, ..acc }),
                                None => None,
                            }
                        } else if tag == "layer"@ {
                            match spec_layer_from(m) {
                                Some(v) => Some(FootprintTextBoxView { layer: v, ..acc }),
                                None => None,
                            }
                        } else if tag == "angle"@ {
                            match spec_field_maybe_scalar(es) {
                                Some(v) => Some(FootprintTextBoxView { angle: spec_opt_scalar(v), ..acc }),
                                None => None,
                            }
                        } else if tag == "stroke"@ {
                            match spec_stroke_from(m) {
                                Some(v) => Some(FootprintTextBoxView { stroke: Some(v), ..acc }),
                                None => None,
                            }
                        } else if tag == "pts"@ {
                            match spec_point_list_from(m) {
                                Some(v) => Some(FootprintTextBoxView { points: v, ..acc }),
                                None => None,
                            }
                        } else {
                            Some(acc)
                        }
                    },
                    _ => None,
                }
            }
        },
        _ => Some(acc),
    }
}

/// What a `(.._text_box ...)` list names, if anything: the leading tag
/// must end in `_text_box`.
pub open spec fn spec_textbox_from(m: NodeModel) -> Option<FootprintTextBoxView> {
    match m {
        NodeModel::List(es) => {
            if es.len() >= 1 {
                match es[0] {
                    NodeModel::Symbol(tag) => {
                        if spec_ends_with(tag, "_text_box"@) {
                            spec_fold(FootprintTextBox::spec_default(), es.drop_first(), |a: FootprintTextBoxView, c: NodeModel| spec_textbox_step(a, c))
                        } else {
                            None
                        }
                    },
                    _ => None,
                }
            } else {
                None
            }
        },
        _ => None,
    }
}

impl FootprintTextBox {
    /// Reads this shape from its tagged list. Unknown fields are
    /// tolerated and skipped.
    pub fn from_sexpr(e: SExpr) -> (r: Result<FootprintTextBox, ParserError>)
        ensures
            match spec_textbox_from(e.model()) {
                Some(v) => r matches Ok(g) && g.model() == v,
                None => r is Err,
            },
    {
        let ghost stepf = |a: FootprintTextBoxView, c: NodeModel| spec_textbox_step(a, c);
        let mut list = match e.as_list() {
            Ok(l) => l,
            Err(er) => {
                return Err(er);
            },
        };
        let ghost items = list.0@;
        proof {
            lemma_models_of(items);
        }
        let sym = match list.next_symbol() {
            Ok(s) => s,
            Err(er) => {
                return Err(er);
            },
        };
        if !str_ends_with(sym.as_str(), "_text_box") {
            return Err(ParserError::Unexpected {
                expected: String::from_str("_text_box"),
                found: sym.0,
            });
        }
        proof {
            assert(list.0@ =~= items.drop_first());
            assert(models_of(items).drop_first() =~= models_of(items).skip(1));
        }
        let mut g = FootprintTextBox {
            text: String::new(),
            start: None,
            end: None,
            uuid: Uuid(String::new()),
            layer: Layer(String::new()),
            angle: None,
            stroke: None,
            points: PointList(Vec::new()),
            locked: false,
        };
        let ghost mut k: int = 1;
        loop
            invariant
                models_of(items).len() == items.len(),
                items.len() >= 1,
                1 <= k <= items.len(),
                list.0@ =~= items.skip(k),
                forall|i: int| 0 <= i < items.len() ==> #[trigger] models_of(items)[i]
                    == items[i].model(),
                spec_fold(FootprintTextBox::spec_default(), models_of(items).drop_first(), stepf)
                    == spec_fold(g.model(), models_of(items).skip(k), stepf),
                spec_textbox_from(e.model()) == spec_fold(
                    FootprintTextBox::spec_default(),
                    models_of(items).drop_first(),
                    stepf,
                ),
                stepf == (|a: FootprintTextBoxView, c: NodeModel| spec_textbox_step(a, c)),
            ensures
                list.0@.len() == 0,
                spec_textbox_from(e.model()) == spec_fold(
                    g.model(),
                    models_of(items).skip(k),
                    stepf,
                ),
                models_of(items).skip(k).len() == 0,
            decreases list.0@.len(),
        {
            proof {
                assert(models_of(items).skip(k).len() == list.0@.len());
                if list.0@.len() > 0 {
                    assert(items.skip(k)[0] == items[k]);
                    assert(models_of(items).skip(k)[0] == models_of(items)[k]);
                }
            }
            let nxt = match list.next_maybe() {
                Some(c) => c,
                None => {
                    break;
                },
            };
            match nxt {
                SExpr::Symbol(kw) => {
                    if str_eq(kw.as_str(), "locked") {
                        g.locked = true;
                    }
                },
                SExpr::Value(v) => {
                    g.text = v.0;
                },
                SExpr::List(attr) => {
                    proof {
                        lemma_models_of(attr.0@);
                    }
                    let code: u32 = match attr.peek_name() {
                        Ok(name) => {
                            if str_eq(name, "start") {
                                1
                            } else if str_eq(name, "end") {
                                2
                            } else if str_eq(name, "uuid") {
                                3
                            } else if str_eq(name, "layer") {
                                4
                            } else if str_eq(name, "angle") {
                                5
                            } else if str_eq(name, "stroke") {
                                6
                            } else if str_eq(name, "pts") {
                                7
                            } else {
                                0
                            }
                        },
                        Err(er) => {
                            return Err(er);
                        },
                    };
                    if code == 1 {
                        let v = match Point::from_sexpr(SExpr::List(attr)) {
                            Ok(v) => v,
                            Err(er) => {
                                return Err(er);
                            },
                        };
                        g.start = Some(v);
                    } else if code == 2 {
                        let v = match Point::from_sexpr(SExpr::List(attr)) {
                            Ok(v) => v,
                            Err(er) => {
                                return Err(er);
                            },
                        };
                        g.end = Some(v);
                    } else if code == 3 {
                        let v = match Uuid::from_sexpr(SExpr::List(attr)) {
                            Ok(v) => v,
                            Err(er) => {
                                return Err(er);
                            },
                        };
                        g.uuid = v;
                    } else if code == 4 {
                        let v = match Layer::from_sexpr(SExpr::List(attr)) {
                            Ok(v) => v,
                            Err(er) => {
                                return Err(er);
                            },
                        };
                        g.layer = v;
                    } else if code == 5 {
                        let v = match field_maybe_scalar(attr) {
                            Ok(v) => v,
                            Err(er) => {
                                return Err(er);
                            },
                        };
                        g.angle = v;
                    } else if code == 6 {
                        let v = match Stroke::from_sexpr(SExpr::List(attr)) {
                            Ok(v) => v,
                            Err(er) => {
                                return Err(er);
                            },
                        };
                        g.stroke = Some(v);
                    } else if code == 7 {
                        let v = match PointList::from_sexpr(SExpr::List(attr)) {
                            Ok(v) => v,
                            Err(er) => {
                                return Err(er);
                            },
                        };
                        g.points = v;
                    }
                },
                _ => {},
            }
            proof {
                assert(items.skip(k).drop_first() =~= items.skip(k + 1));
                assert(models_of(items).skip(k).drop_first() =~= models_of(items).skip(k + 1));
                k = k + 1;
            }
        }
        Ok(g)
    }
}


// ---------------------------------------------------------------------------
// The graphic union and its dispatch
// ---------------------------------------------------------------------------

/// A footprint or board graphic item: the union of the eight shapes.
#[derive(Clone, Debug)]
pub enum Graphic {
    Text(FootprintText),
    TextBox(FootprintTextBox),
    Line(FootprintLine),
    Rectangle(FootprintRectangle),
    Circle(FootprintCircle),
    Arc(FootprintArc),
    Polygon(FootprintPolygon),
    Curve(FootprintCurve),
}

/// The mathematical value of a `Graphic`.
pub enum GraphicView {
    Text(FootprintTextView),
    TextBox(FootprintTextBoxView),
    Line(FootprintLineView),
    Rectangle(FootprintRectangleView),
    Circle(FootprintCircleView),
    Arc(FootprintArcView),
    Polygon(FootprintPolygonView),
    Curve(FootprintCurveView),
}

impl Graphic {
    /// The ghost value of this graphic.
    pub open spec fn model(self) -> GraphicView {
        match self {
            Graphic::Text(v) => GraphicView::Text(v.model()),
            Graphic::TextBox(v) => GraphicView::TextBox(v.model()),
            Graphic::Line(v) => GraphicView::Line(v.model()),
            Graphic::Rectangle(v) => GraphicView::Rectangle(v.model()),
            Graphic::Circle(v) => GraphicView::Circle(v.model()),
            Graphic::Arc(v) => GraphicView::Arc(v.model()),
            Graphic::Polygon(v) => GraphicView::Polygon(v.model()),
            Graphic::Curve(v) => GraphicView::Curve(v.model()),
        }
    }

    /// The name of the layer this graphic lies on.
    pub open spec fn spec_layer(self) -> Seq<char> {
        match self {
            Graphic::Text(v) => v.layer.0@,
            Graphic::TextBox(v) => v.layer.0@,
            Graphic::Line(v) => v.layer.0@,
            Graphic::Rectangle(v) => v.layer.0@,
            Graphic::Circle(v) => v.layer.0@,
            Graphic::Arc(v) => v.layer.0@,
            Graphic::Polygon(v) => v.layer.0@,
            Graphic::Curve(v) => v.layer.0@,
        }
    }

    /// The layer this graphic lies on.
    pub fn layer(&self) -> (r: &Layer)
        ensures
            r.0@ == self.spec_layer(),
    {
        match self {
            Graphic::Text(v) => &v.layer,
            Graphic::TextBox(v) => &v.layer,
            Graphic::Line(v) => &v.layer,
            Graphic::Rectangle(v) => &v.layer,
            Graphic::Circle(v) => &v.layer,
            Graphic::Arc(v) => &v.layer,
            Graphic::Polygon(v) => &v.layer,
            Graphic::Curve(v) => &v.layer,
        }
    }
}

/// What a graphic list names, if anything: its leading tag is matched by
/// suffix, so that the same shape is recognized under its board-level and
/// footprint-level prefixes alike.
pub open spec fn spec_graphic_from(m: NodeModel) -> Option<GraphicView> {
    match crate::sexpr::spec_tag_of(m) {
        Some(tag) => {
            if spec_ends_with(tag, "_text_box"@) {
                match spec_textbox_from(m) {
                    Some(v) => Some(GraphicView::TextBox(v)),
                    None => None,
                }
            } else if spec_ends_with(tag, "_text"@) {
                match spec_text_from(m) {
                    Some(v) => Some(GraphicView::Text(v)),
                    None => None,
                }
            } else if spec_ends_with(tag, "_line"@) {
                match spec_line_from(m) {
                    Some(v) => Some(GraphicView::Line(v)),
                    None => None,
                }
            } else if spec_ends_with(tag, "_rect"@) {
                match spec_rectangle_from(m) {
                    Some(v) => Some(GraphicView::Rectangle(v)),
                    None => None,
                }
            } else if spec_ends_with(tag, "_circle"@) {
                match spec_circle_from(m) {
                    Some(v) => Some(GraphicView::Circle(v)),
                    None => None,
                }
            } else if spec_ends_with(tag, "_arc"@) {
                match spec_arc_from(m) {
                    Some(v) => Some(GraphicView::Arc(v)),
                    None => None,
                }
            } else if spec_ends_with(tag, "_poly"@) {
                match spec_polygon_from(m) {
                    Some(v) => Some(GraphicView::Polygon(v)),
                    None => None,
                }
            } else if spec_ends_with(tag, "_curve"@) {
                match spec_curve_from(m) {
                    Some(v) => Some(GraphicView::Curve(v)),
                    None => None,
                }
            } else {
                None
            }
        },
        None => None,
    }
}

impl Graphic {
    /// Reads a graphic from its tagged list, dispatching on the tag's
    /// suffix; an unrecognized suffix is an error naming the tag.
    pub fn from_sexpr(e: SExpr) -> (r: Result<Graphic, ParserError>)
        ensures
            match spec_graphic_from(e.model()) {
                Some(v) => r matches Ok(g) && g.model() == v,
                None => r is Err,
            },
    {
        let code: u32 = match &e {
            SExpr::List(l) => {
                proof {
                    lemma_models_of(l.0@);
                }
                match l.peek_name() {
                    Ok(name) => {
                        if str_ends_with(name, "_text_box") {
                            2
                        } else if str_ends_with(name, "_text") {
                            1
                        } else if str_ends_with(name, "_line") {
                            3
                        } else if str_ends_with(name, "_rect") {
                            4
                        } else if str_ends_with(name, "_circle") {
                            5
                        } else if str_ends_with(name, "_arc") {
                            6
                        } else if str_ends_with(name, "_poly") {
                            7
                        } else if str_ends_with(name, "_curve") {
                            8
                        } else {
                            0
                        }
                    },
                    Err(er) => {
                        return Err(er);
                    },
                }
            },
            _ => {
                return Err(
                    ParserError::UnexpectedSExpr { expected: String::from_str("graphic list") },
                );
            },
        };
        if code == 2 {
            match FootprintTextBox::from_sexpr(e) {
                Ok(v) => Ok(Graphic::TextBox(v)),
                Err(er) => Err(er),
            }
        } else if code == 1 {
            match FootprintText::from_sexpr(e) {
                Ok(v) => Ok(Graphic::Text(v)),
                Err(er) => Err(er),
            }
        } else if code == 3 {
            match FootprintLine::from_sexpr(e) {
                Ok(v) => Ok(Graphic::Line(v)),
                Err(er) => Err(er),
            }
        } else if code == 4 {
            match FootprintRectangle::from_sexpr(e) {
                Ok(v) => Ok(Graphic::Rectangle(v)),
                Err(er) => Err(er),
            }
        } else if code == 5 {
            match FootprintCircle::from_sexpr(e) {
                Ok(v) => Ok(Graphic::Circle(v)),
                Err(er) => Err(er),
            }
        } else if code == 6 {
            match FootprintArc::from_sexpr(e) {
                Ok(v) => Ok(Graphic::Arc(v)),
                Err(er) => Err(er),
            }
        } else if code == 7 {
            match FootprintPolygon::from_sexpr(e) {
                Ok(v) => Ok(Graphic::Polygon(v)),
                Err(er) => Err(er),
            }
        } else if code == 8 {
            match FootprintCurve::from_sexpr(e) {
                Ok(v) => Ok(Graphic::Curve(v)),
                Err(er) => Err(er),
            }
        } else {
            Err(ParserError::UnknownListName { name: String::from_str("graphic") })
        }
    }
}

// ---------------------------------------------------------------------------
// Bounding boxes
// ---------------------------------------------------------------------------

/// The degenerate box spanning exactly one point.
pub open spec fn spec_point_box(p: Point) -> BoundingBox {
    BoundingBox { min_x: p.x, min_y: p.y, max_x: p.x, max_y: p.y }
}

/// The box spanning a list of points: the identity box grown around each
/// point in turn.
pub open spec fn spec_points_box(pts: Seq<Point>) -> BoundingBox
    decreases pts.len(),
{
    if pts.len() == 0 {
        spec_empty_box()
    } else {
        spec_envelop(spec_points_box(pts.drop_last()), spec_point_box(pts.last()))
    }
}

/// Computes the box spanning a list of points.
pub fn points_box(pts: &Vec<Point>) -> (r: BoundingBox)
    ensures
        r == spec_points_box(pts@),
{
    let mut b = BoundingBox::empty();
    let n = pts.len();
    let mut i: usize = 0;
    while i < n
        invariant
            n == pts@.len(),
            i <= n,
            b == spec_points_box(pts@.take(i as int)),
        decreases n - i,
    {
        let p = pts[i];
        let pb = BoundingBox { min_x: p.x, min_y: p.y, max_x: p.x, max_y: p.y };
        b.envelop(&pb);
        i = i + 1;
        proof {
            assert(pts@.take(i as int).drop_last() =~= pts@.take(i as int - 1));
            assert(pts@.take(i as int).last() == pts@[i as int - 1]);
        }
    }
    proof {
        assert(pts@.take(n as int) =~= pts@);
    }
    b
}

/// The radius of a circle given by its center and a rim point: the integer
/// square root of the squared distance, clamped into the coordinate range.
pub open spec fn spec_circle_radius(center: Point, end: Point) -> int {
    let dx = end.x.as_int() - center.x.as_int();
    let dy = end.y.as_int() - center.y.as_int();
    let rsq = (dx * dx + dy * dy) as nat;
    if spec_isqrt(rsq) > i64::MAX {
        i64::MAX as int
    } else {
        spec_isqrt(rsq) as int
    }
}

/// Computes the radius of a circle from its center and a rim point.
fn circle_radius(center: Point, end: Point) -> (r: Scalar)
    ensures
        r.as_int() == spec_circle_radius(center, end),
        r.units >= 0,
{
    let dxs: i128 = end.x.units as i128 - center.x.units as i128;
    let dys: i128 = end.y.units as i128 - center.y.units as i128;
    let dxm: u128 = if dxs >= 0 {
        dxs as u128
    } else {
        (-dxs) as u128
    };
    let dym: u128 = if dys >= 0 {
        dys as u128
    } else {
        (-dys) as u128
    };
    let ghost dx = end.x.as_int() - center.x.as_int();
    let ghost dy = end.y.as_int() - center.y.as_int();
    proof {
        assert(dxm as int * (dxm as int) == dx * dx) by (nonlinear_arith)
            requires
                dxm as int == dx || dxm as int == -dx,
        ;
        assert(dym as int * (dym as int) == dy * dy) by (nonlinear_arith)
            requires
                dym as int == dy || dym as int == -dy,
        ;
        assert(dxm as int <= 0xFFFF_FFFF_FFFF_FFFFu64 as int);
        assert(dym as int <= 0xFFFF_FFFF_FFFF_FFFFu64 as int);
        assert((dxm as int) * (dxm as int) <= (0xFFFF_FFFF_FFFF_FFFFu64 as int) * (
        0xFFFF_FFFF_FFFF_FFFFu64 as int)) by (nonlinear_arith)
            requires
                0 <= dxm as int <= 0xFFFF_FFFF_FFFF_FFFFu64 as int,
        ;
        assert((dym as int) * (dym as int) <= (0xFFFF_FFFF_FFFF_FFFFu64 as int) * (
        0xFFFF_FFFF_FFFF_FFFFu64 as int)) by (nonlinear_arith)
            requires
                0 <= dym as int <= 0xFFFF_FFFF_FFFF_FFFFu64 as int,
        ;
    }
    let sqx: u128 = dxm * dxm;
    let sqy: u128 = dym * dym;
    let ghost rsq = (dx * dx + dy * dy) as nat;
    if sqy > u128::MAX - sqx {
        // The squared distance leaves 128 bits, so the radius certainly
        // leaves the coordinate range.
        proof {
            lemma_isqrt_bounds(rsq);
            if spec_isqrt(rsq) <= i64::MAX {
                assert(((spec_isqrt(rsq) as int) + 1) * ((spec_isqrt(rsq) as int) + 1) <= (
                0x8000_0000_0000_0000i128 as int) * (0x8000_0000_0000_0000i128 as int))
                    by (nonlinear_arith)
                    requires
                        0 <= (spec_isqrt(rsq) as int) + 1 <= 0x8000_0000_0000_0000i128 as int,
                ;
                assert(false);
            }
        }
        Scalar { units: i64::MAX }
    } else {
        let rsq_exec: u128 = sqx + sqy;
        let r0 = crate::scalar::isqrt_u128(rsq_exec);
        if r0 > i64::MAX as u64 {
            Scalar { units: i64::MAX }
        } else {
            Scalar { units: r0 as i64 }
        }
    }
}

impl GetBoundingBox for FootprintLine {
    /// The box spanning the two endpoints.
    open spec fn spec_bounding_box(&self) -> BoundingBox {
        spec_envelop(spec_point_box(self.start), spec_point_box(self.end))
    }

    fn bounding_box(&self) -> (r: BoundingBox)
        ensures
            r == self.spec_bounding_box(),
    {
        let mut b = BoundingBox {
            min_x: self.start.x,
            min_y: self.start.y,
            max_x: self.start.x,
            max_y: self.start.y,
        };
        b.envelop(
            &BoundingBox {
                min_x: self.end.x,
                min_y: self.end.y,
                max_x: self.end.x,
                max_y: self.end.y,
            },
        );
        b
    }
}

impl GetBoundingBox for FootprintRectangle {
    /// The box spanning the two corners.
    open spec fn spec_bounding_box(&self) -> BoundingBox {
        spec_envelop(spec_point_box(self.start), spec_point_box(self.end))
    }

    fn bounding_box(&self) -> (r: BoundingBox)
        ensures
            r == self.spec_bounding_box(),
    {
        let mut b = BoundingBox {
            min_x: self.start.x,
            min_y: self.start.y,
            max_x: self.start.x,
            max_y: self.start.y,
        };
        b.envelop(
            &BoundingBox {
                min_x: self.end.x,
                min_y: self.end.y,
                max_x: self.end.x,
                max_y: self.end.y,
            },
        );
        b
    }
}

impl GetBoundingBox for FootprintCircle {
    /// The true axis-aligned box of the circle: center plus and minus the
    /// Euclidean distance to the rim point, saturating at the coordinate
    /// range.
    open spec fn spec_bounding_box(&self) -> BoundingBox {
        let rad = spec_circle_radius(self.center, self.end);
        BoundingBox {
            min_x: Scalar { units: sat_i64(self.center.x.as_int() - rad) as i64 },
            min_y: Scalar { units: sat_i64(self.center.y.as_int() - rad) as i64 },
            max_x: Scalar { units: sat_i64(self.center.x.as_int() + rad) as i64 },
            max_y: Scalar { units: sat_i64(self.center.y.as_int() + rad) as i64 },
        }
    }

    fn bounding_box(&self) -> (r: BoundingBox)
        ensures
            r == self.spec_bounding_box(),
    {
        let rad = circle_radius(self.center, self.end);
        BoundingBox {
            min_x: self.center.x.sub_sat(rad),
            min_y: self.center.y.sub_sat(rad),
            max_x: self.center.x.add_sat(rad),
            max_y: self.center.y.add_sat(rad),
        }
    }
}

impl GetBoundingBox for FootprintArc {
    /// The box spanning the start, the midpoint, and the end. This is a
    /// known approximation: it under-estimates the true box whenever the
    /// arc bulges beyond these three points.
    open spec fn spec_bounding_box(&self) -> BoundingBox {
        spec_envelop(
            spec_envelop(spec_point_box(self.start), spec_point_box(self.mid)),
            spec_point_box(self.end),
        )
    }

    fn bounding_box(&self) -> (r: BoundingBox)
        ensures
            r == self.spec_bounding_box(),
    {
        let mut b = BoundingBox {
            min_x: self.start.x,
            min_y: self.start.y,
            max_x: self.start.x,
            max_y: self.start.y,
        };
        b.envelop(
            &BoundingBox {
                min_x: self.mid.x,
                min_y: self.mid.y,
                max_x: self.mid.x,
                max_y: self.mid.y,
            },
        );
        b.envelop(
            &BoundingBox {
                min_x: self.end.x,
                min_y: self.end.y,
                max_x: self.end.x,
                max_y: self.end.y,
            },
        );
        b
    }
}

impl GetBoundingBox for FootprintPolygon {
    /// The box spanning every outline point; degenerate for an empty
    /// outline.
    open spec fn spec_bounding_box(&self) -> BoundingBox {
        spec_points_box(self.points.0@)
    }

    fn bounding_box(&self) -> (r: BoundingBox)
        ensures
            r == self.spec_bounding_box(),
    {
        points_box(&self.points.0)
    }
}

impl GetBoundingBox for FootprintCurve {
    /// The box spanning every control point. A cubic Bezier curve lies
    /// inside the convex hull of its control points, so this box is
    /// conservative and correct for curves.
    open spec fn spec_bounding_box(&self) -> BoundingBox {
        spec_points_box(self.points.0@)
    }

    fn bounding_box(&self) -> (r: BoundingBox)
        ensures
            r == self.spec_bounding_box(),
    {
        points_box(&self.points.0)
    }
}

impl GetBoundingBox for FootprintText {
    /// A stand-in box of fixed width and height around the anchor, pending
    /// real font metrics.
    open spec fn spec_bounding_box(&self) -> BoundingBox {
        BoundingBox {
            min_x: self.position.x,
            min_y: Scalar { units: sat_i64(self.position.y.as_int() - 2_500_000) as i64 },
            max_x: Scalar { units: sat_i64(self.position.x.as_int() + 10_000_000) as i64 },
            max_y: Scalar { units: sat_i64(self.position.y.as_int() + 2_500_000) as i64 },
        }
    }

    fn bounding_box(&self) -> (r: BoundingBox)
        ensures
            r == self.spec_bounding_box(),
    {
        BoundingBox {
            min_x: self.position.x,
            min_y: self.position.y.sub_sat(Scalar { units: 2_500_000 }),
            max_x: self.position.x.add_sat(Scalar { units: 10_000_000 }),
            max_y: self.position.y.add_sat(Scalar { units: 2_500_000 }),
        }
    }
}

impl GetBoundingBox for FootprintTextBox {
    /// The box given by the declared corners; a missing start corner is
    /// taken as the origin, and a missing end corner collapses the box onto
    /// its start.
    open spec fn spec_bounding_box(&self) -> BoundingBox {
        let sx = match self.start {
            Some(p) => p.x,
            None => Scalar { units: 0 },
        };
        let sy = match self.start {
            Some(p) => p.y,
            None => Scalar { units: 0 },
        };
        let ex = match self.end {
            Some(p) => p.x,
            None => sx,
        };
        let ey = match self.end {
            Some(p) => p.y,
            None => sy,
        };
        BoundingBox { min_x: sx, min_y: sy, max_x: ex, max_y: ey }
    }

    fn bounding_box(&self) -> (r: BoundingBox)
        ensures
            r == self.spec_bounding_box(),
    {
        let sx = match self.start {
            Some(p) => p.x,
            None => Scalar { units: 0 },
        };
        let sy = match self.start {
            Some(p) => p.y,
            None => Scalar { units: 0 },
        };
        let ex = match self.end {
            Some(p) => p.x,
            None => sx,
        };
        let ey = match self.end {
            Some(p) => p.y,
            None => sy,
        };
        BoundingBox { min_x: sx, min_y: sy, max_x: ex, max_y: ey }
    }
}

impl GetBoundingBox for Graphic {
    /// The box of whichever shape this graphic is.
    open spec fn spec_bounding_box(&self) -> BoundingBox {
        match self {
            Graphic::Text(v) => v.spec_bounding_box(),
            Graphic::TextBox(v) => v.spec_bounding_box(),
            Graphic::Line(v) => v.spec_bounding_box(),
            Graphic::Rectangle(v) => v.spec_bounding_box(),
            Graphic::Circle(v) => v.spec_bounding_box(),
            Graphic::Arc(v) => v.spec_bounding_box(),
            Graphic::Polygon(v) => v.spec_bounding_box(),
            Graphic::Curve(v) => v.spec_bounding_box(),
        }
    }

    fn bounding_box(&self) -> (r: BoundingBox)
        ensures
            r == self.spec_bounding_box(),
    {
        match self {
            Graphic::Text(v) => v.bounding_box(),
            Graphic::TextBox(v) => v.bounding_box(),
            Graphic::Line(v) => v.bounding_box(),
            Graphic::Rectangle(v) => v.bounding_box(),
            Graphic::Circle(v) => v.bounding_box(),
            Graphic::Arc(v) => v.bounding_box(),
            Graphic::Polygon(v) => v.bounding_box(),
            Graphic::Curve(v) => v.bounding_box(),
        }
    }
}

} // verus!
