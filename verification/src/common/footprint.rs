//! Footprints and their parts: identifiers, layers, attributes, pads, and
//! the footprint itself.

use vstd::prelude::*;

verus! {

use crate::parser::ParserError;
use crate::scalar::Scalar;
use crate::sexpr::{lemma_models_of, models_of, str_eq, NodeModel, SExpr};
use crate::common::graphic::{
    spec_graphic_from, Graphic, GraphicView,
};
use crate::common::positionals::{
    spec_empty_box, spec_envelop, spec_point_from, BoundingBox, GetBoundingBox, Point, Position,
    Size,
};
use crate::scalar::sat_i64;
use crate::sexpr::cursor::{spec_i32_of, spec_scalar_of};
use crate::sexpr::{spec_fold, spec_starts_with, str_starts_with, SExprList};
use crate::common::graphic::{field_scalar, field_string, spec_field_scalar, spec_field_string};

/// A universally unique identifier, kept as its text.
#[derive(Clone, Debug, Default)]
pub struct Uuid(pub String);

/// A layer name, kept as an opaque string.
///
/// Names are deliberately not validated against the canonical layer set, so
/// that custom and future layer names pass through unchanged; a misspelled
/// layer is therefore not detected here.
#[derive(Clone, Debug, Default)]
pub struct Layer(pub String);

impl Layer {
    /// The layer's name.
    pub fn as_str(&self) -> (r: &str)
        ensures
            r@ == self.0@,
    {
        self.0.as_str()
    }
}

/// Zone connection styles for pads.
#[derive(Clone, Copy, Debug, PartialEq, Eq, Structural)]
pub enum ZoneConnect {
    /// Pad not connected to the zone.
    NotConnected,
    /// Pad connected through thermal relief spokes.
    Thermal,
    /// Pad connected with solid fill.
    Solid,
}

/// Footprint type classification.
#[derive(Clone, Copy, Debug, PartialEq, Eq, Structural, Default)]
pub enum FootprintType {
    #[default]
    Smd,
    ThroughHole,
}

/// Footprint attributes: type and exclusion flags.
#[derive(Clone, Copy, Debug, PartialEq, Eq, Structural, Default)]
pub struct FootprintAttributes {
    /// SMD or through-hole.
    pub footprint_type: FootprintType,
    /// Board-only flag: no schematic symbol reference.
    pub board_only: bool,
    /// Excluded from position files.
    pub exclude_from_pos_files: bool,
    /// Excluded from the bill of materials.
    pub exclude_from_bom: bool,
    /// Not populated on the assembled board.
    pub do_not_populate: bool,
}

/// Pad types.
#[derive(Clone, Copy, Debug, PartialEq, Eq, Structural, Default)]
pub enum PadType {
    #[default]
    ThroughHole,
    Smd,
    Connect,
    NonPlatedThroughHole,
}

/// Pad shapes.
#[derive(Clone, Copy, Debug, PartialEq, Eq, Structural, Default)]
pub enum PadShape {
    Circle,
    #[default]
    Rectangle,
    Oval,
    Trapezoid,
    RoundedRectangle,
    Custom,
}

/// Special pad properties.
#[derive(Clone, Copy, Debug, PartialEq, Eq, Structural, Default)]
pub enum PadProperty {
    #[default]
    Heatsink,
    Castellated,
}

/// Pad corners eligible for chamfering.
#[derive(Clone, Copy, Debug, PartialEq, Eq, Structural, Default)]
pub enum PadCorner {
    #[default]
    TopLeft,
    TopRight,
    BottomLeft,
    BottomRight,
}

/// A drill specification.
#[derive(Clone, Copy, Debug, PartialEq, Eq, Structural)]
pub struct Drill {
    /// Oval drill flag.
    pub oval: bool,
    /// Drill diameter.
    pub diameter: Scalar,
    /// Width for oval drills.
    pub width: Option<Scalar>,
    /// Drill offset from the pad center.
    pub offset: Option<Point>,
}

/// Clearance styles for custom pads.
#[derive(Clone, Copy, Debug, PartialEq, Eq, Structural)]
pub enum CustomPadClearance {
    Outline,
    ConvexHull,
}

/// Options for custom-shaped pads.
#[derive(Clone, Copy, Debug, PartialEq, Eq, Structural)]
pub struct CustomPadOptions {
    /// Clearance style.
    pub clearance: CustomPadClearance,
    /// Anchor pad shape.
    pub anchor: PadShape,
}

/// A graphic item defining part of a custom pad's shape.
#[derive(Clone, Debug, PartialEq)]
pub enum PadGraphic {
    Line { start: Point, end: Point },
    Rectangle { start: Point, end: Point },
    Circle { center: Point, end: Point },
    Arc { start: Point, mid: Point, end: Point },
    Polygon { points: Vec<Point> },
}

/// The graphic items defining a custom pad's shape.
#[derive(Clone, Debug, PartialEq)]
pub struct CustomPadPrimitives {
    /// The shape outline items.
    pub graphics: Vec<PadGraphic>,
    /// Line width for the items.
    pub width: Scalar,
    /// Fill flag.
    pub fill: bool,
}

/// A keep-out or copper zone. The source format's zone records are not
/// interpreted by this crate.
#[derive(Clone, Copy, Debug, PartialEq, Eq, Structural, Default)]
pub struct Zone {}

/// A group of board objects. The source format's group records are not
/// interpreted by this crate.
#[derive(Clone, Copy, Debug, PartialEq, Eq, Structural, Default)]
pub struct Group {}

/// A triple of lengths, one per axis of model space.
#[derive(Clone, Copy, Debug, PartialEq, Eq, Structural)]
pub struct Vec3 {
    pub x: Scalar,
    pub y: Scalar,
    pub z: Scalar,
}

/// A reference to a 3D model file.
#[derive(Clone, Debug)]
pub struct Model3D {
    /// Path to the model file.
    pub file: String,
    /// Position offset per axis.
    pub position: Vec3,
    /// Scale factor per axis.
    pub scale: Vec3,
    /// Rotation per axis.
    pub rotation: Vec3,
}

/// Horizontal text justification.
#[derive(Clone, Copy, Debug, PartialEq, Eq, Structural)]
pub enum HorizontalJustify {
    Left,
    Right,
    Center,
}

/// Vertical text justification.
#[derive(Clone, Copy, Debug, PartialEq, Eq, Structural)]
pub enum VerticalJustify {
    Top,
    Bottom,
    Center,
}

/// Text justification.
#[derive(Clone, Copy, Debug, PartialEq, Eq, Structural)]
pub struct Justify {
    pub horizontal: Option<HorizontalJustify>,
    pub vertical: Option<VerticalJustify>,
}

/// A font definition.
#[derive(Clone, Debug)]
pub struct Font {
    /// Font family name, when not the stroke font.
    pub face: Option<String>,
    /// Height and width.
    pub size: crate::common::positionals::Size,
    /// Line thickness.
    pub thickness: Scalar,
    /// Bold flag.
    pub bold: bool,
    /// Italic flag.
    pub italic: bool,
    /// Line spacing ratio.
    pub line_spacing: Option<Scalar>,
}

/// Text display effects.
#[derive(Clone, Debug)]
pub struct TextEffects {
    /// Font settings.
    pub font: Font,
    /// Justification.
    pub justify: Option<Justify>,
    /// Mirrored text flag.
    pub mirror: bool,
    /// Hidden text flag.
    pub hide: bool,
}

/// What a `(uuid "...")` list names, if anything: the identifier text,
/// which must not be empty.
pub open spec fn spec_uuid_from(m: NodeModel) -> Option<Seq<char>> {
    match m {
        NodeModel::List(es) => {
            if es.len() == 2 && es[0] == NodeModel::Symbol("uuid"@) {
                match es[1] {
                    NodeModel::Value(text) => if text.len() > 0 {
                        Some(text)
                    } else {
                        None
                    },
                    _ => None,
                }
            } else {
                None
            }
        },
        _ => None,
    }
}

impl Uuid {
    /// Reads an identifier from its `(uuid "...")` list.
    pub fn from_sexpr(e: SExpr) -> (r: Result<Uuid, ParserError>)
        ensures
            match spec_uuid_from(e.model()) {
                Some(text) => r matches Ok(u) && u.0@ == text,
                None => r is Err,
            },
    {
        let mut list = match e.as_list() {
            Ok(l) => l,
            Err(er) => {
                return Err(er);
            },
        };
        let ghost items = list.0@;
        proof {
            lemma_models_of(items);
        }
        let sym = match list.next_symbol() {
            Ok(s) => s,
            Err(er) => {
                return Err(er);
            },
        };
        if !str_eq(sym.as_str(), "uuid") {
            return Err(ParserError::Unexpected {
                expected: String::from_str("uuid"),
                found: sym.0,
            });
        }
        proof {
            assert(list.0@ =~= items.drop_first());
        }
        let text = match list.next_string() {
            Ok(v) => v,
            Err(er) => {
                return Err(er);
            },
        };
        proof {
            assert(items.drop_first()[0] == items[1]);
            assert(items.drop_first().drop_first() =~= items.subrange(2, items.len() as int));
        }
        if text.unicode_len() == 0 {
            return Err(ParserError::Unexpected {
                expected: String::from_str("non-empty identifier"),
                found: text,
            });
        }
        match list.expect_end() {
            Ok(()) => {},
            Err(er) => {
                return Err(er);
            },
        }
        Ok(Uuid(text))
    }
}

/// What a `(layer "...")` list names, if anything: the layer's name.
pub open spec fn spec_layer_from(m: NodeModel) -> Option<Seq<char>> {
    match m {
        NodeModel::List(es) => {
            if es.len() == 2 && es[0] == NodeModel::Symbol("layer"@) {
                match es[1] {
                    NodeModel::Value(text) => Some(text),
                    _ => None,
                }
            } else {
                None
            }
        },
        _ => None,
    }
}

impl Layer {
    /// Reads a layer name from its `(layer "...")` list.
    pub fn from_sexpr(e: SExpr) -> (r: Result<Layer, ParserError>)
        ensures
            match spec_layer_from(e.model()) {
                Some(text) => r matches Ok(l) && l.0@ == text,
                None => r is Err,
            },
    {
        let mut list = match e.as_list() {
            Ok(l) => l,
            Err(er) => {
                return Err(er);
            },
        };
        let ghost items = list.0@;
        proof {
            lemma_models_of(items);
        }
        let sym = match list.next_symbol() {
            Ok(s) => s,
            Err(er) => {
                return Err(er);
            },
        };
        if !str_eq(sym.as_str(), "layer") {
            return Err(ParserError::Unexpected {
                expected: String::from_str("layer"),
                found: sym.0,
            });
        }
        proof {
            assert(list.0@ =~= items.drop_first());
        }
        let text = match list.next_string() {
            Ok(v) => v,
            Err(er) => {
                return Err(er);
            },
        };
        proof {
            assert(items.drop_first()[0] == items[1]);
            assert(items.drop_first().drop_first() =~= items.subrange(2, items.len() as int));
        }
        match list.expect_end() {
            Ok(()) => {},
            Err(er) => {
                return Err(er);
            },
        }
        Ok(Layer(text))
    }
}

/// The layer names held by the children of a `(layers ...)` list: each
/// child must be a quoted value.
pub open spec fn spec_layer_seq_fold(acc: Seq<Seq<char>>, es: Seq<NodeModel>) -> Option<
    Seq<Seq<char>>,
>
    decreases es.len(),
{
    if es.len() == 0 {
        Some(acc)
    } else {
        match es[0] {
            NodeModel::Value(text) => spec_layer_seq_fold(acc.push(text), es.drop_first()),
            _ => None,
        }
    }
}

/// What a `(layers "..." ...)` list names, if anything.
pub open spec fn spec_layers_from(m: NodeModel) -> Option<Seq<Seq<char>>> {
    match m {
        NodeModel::List(es) => {
            if es.len() >= 1 && es[0] == NodeModel::Symbol("layers"@) {
                spec_layer_seq_fold(Seq::empty(), es.drop_first())
            } else {
                None
            }
        },
        _ => None,
    }
}

/// The layer names of a layer vector, in order.
pub open spec fn spec_layer_names(ls: Seq<Layer>) -> Seq<Seq<char>> {
    Seq::new(ls.len(), |i: int| ls[i].0@)
}

/// Reads the layer set of a pad from its `(layers "..." ...)` list.
pub fn layers_from_sexpr(e: SExpr) -> (r: Result<Vec<Layer>, ParserError>)
    ensures
        match spec_layers_from(e.model()) {
            Some(names) => r matches Ok(ls) && spec_layer_names(ls@) == names,
            None => r is Err,
        },
{
    let mut list = match e.as_list() {
        Ok(l) => l,
        Err(er) => {
            return Err(er);
        },
    };
    let ghost items = list.0@;
    proof {
        lemma_models_of(items);
    }
    let sym = match list.next_symbol() {
        Ok(s) => s,
        Err(er) => {
            return Err(er);
        },
    };
    if !str_eq(sym.as_str(), "layers") {
        return Err(ParserError::Unexpected {
            expected: String::from_str("layers"),
            found: sym.0,
        });
    }
    proof {
        assert(list.0@ =~= items.drop_first());
    }
    let mut out: Vec<Layer> = Vec::new();
    proof {
        assert(spec_layer_names(out@) =~= Seq::<Seq<char>>::empty());
        assert(models_of(items).drop_first() =~= models_of(items).skip(1));
    }
    loop
        invariant
            models_of(items).len() == items.len(),
            items.len() >= 1,
            1 + out@.len() <= items.len(),
            list.0@ =~= items.skip(1 + out@.len() as int),
            forall|i: int| 0 <= i < items.len() ==> #[trigger] models_of(items)[i]
                == items[i].model(),
            spec_layer_seq_fold(Seq::empty(), models_of(items).drop_first())
                == spec_layer_seq_fold(
                spec_layer_names(out@),
                models_of(items).skip(1 + out@.len() as int),
            ),
            spec_layers_from(e.model()) == spec_layer_seq_fold(
                Seq::empty(),
                models_of(items).drop_first(),
            ),
        ensures
            list.0@.len() == 0,
            spec_layers_from(e.model()) == spec_layer_seq_fold(
                spec_layer_names(out@),
                models_of(items).skip(1 + out@.len() as int),
            ),
            models_of(items).skip(1 + out@.len() as int).len() == 0,
        decreases list.0@.len(),
    {
        let ghost k = 1 + out@.len() as int;
        proof {
            assert(models_of(items).skip(k).len() == list.0@.len());
            if list.0@.len() > 0 {
                assert(items.skip(k)[0] == items[k]);
                assert(models_of(items).skip(k)[0] == models_of(items)[k]);
            }
        }
        let nxt = match list.next_maybe() {
            Some(c) => c,
            None => {
                break;
            },
        };
        let val = match nxt {
            SExpr::Value(v) => v,
            _ => {
                return Err(
                    ParserError::UnexpectedSExpr { expected: String::from_str("quoted value") },
                );
            },
        };
        let ghost before = out@;
        out.push(Layer(val.0));
        proof {
            assert(items.skip(k).drop_first() =~= items.skip(k + 1));
            assert(models_of(items).skip(k).drop_first() =~= models_of(items).skip(k + 1));
            assert(spec_layer_names(out@) =~= spec_layer_names(before).push(out@[out@.len()
                - 1].0@));
        }
    }
    proof {
        assert(spec_layers_from(e.model()) == Some(spec_layer_names(out@)));
    }
    Ok(out)
}

/// One attribute keyword's effect on a footprint attribute bundle; an
/// unrecognized keyword is tolerated and changes nothing.
pub open spec fn spec_attr_step(acc: FootprintAttributes, m: NodeModel) -> Option<
    FootprintAttributes,
> {
    match m {
        NodeModel::Symbol(kw) => {
            if kw == "smd"@ {
                Some(FootprintAttributes { footprint_type: FootprintType::Smd, ..acc })
            } else if kw == "through_hole"@ {
                Some(FootprintAttributes { footprint_type: FootprintType::ThroughHole, ..acc })
            } else if kw == "board_only"@ {
                Some(FootprintAttributes { board_only: true, ..acc })
            } else if kw == "exclude_from_pos_files"@ {
                Some(FootprintAttributes { exclude_from_pos_files: true, ..acc })
            } else if kw == "exclude_from_bom"@ {
                Some(FootprintAttributes { exclude_from_bom: true, ..acc })
            } else if kw == "dnp"@ || kw == "do_not_populate"@ {
                Some(FootprintAttributes { do_not_populate: true, ..acc })
            } else {
                Some(acc)
            }
        },
        _ => None,
    }
}

/// The attribute bundle accumulated over a sequence of keywords.
pub open spec fn spec_attr_fold(acc: FootprintAttributes, es: Seq<NodeModel>) -> Option<
    FootprintAttributes,
>
    decreases es.len(),
{
    if es.len() == 0 {
        Some(acc)
    } else {
        match spec_attr_step(acc, es[0]) {
            Some(a) => spec_attr_fold(a, es.drop_first()),
            None => None,
        }
    }
}

/// What an `(attr ...)` list names, if anything.
pub open spec fn spec_attrs_from(m: NodeModel) -> Option<FootprintAttributes> {
    match m {
        NodeModel::List(es) => {
            if es.len() >= 1 && es[0] == NodeModel::Symbol("attr"@) {
                spec_attr_fold(FootprintAttributes::spec_default(), es.drop_first())
            } else {
                None
            }
        },
        _ => None,
    }
}

impl FootprintAttributes {
    /// The all-defaults attribute bundle.
    pub open spec fn spec_default() -> FootprintAttributes {
        FootprintAttributes {
            footprint_type: FootprintType::Smd,
            board_only: false,
            exclude_from_pos_files: false,
            exclude_from_bom: false,
            do_not_populate: false,
        }
    }

    /// Reads an attribute bundle from its `(attr ...)` list. Keywords that
    /// are not recognized are tolerated and skipped.
    pub fn from_sexpr(e: SExpr) -> (r: Result<FootprintAttributes, ParserError>)
        ensures
            match spec_attrs_from(e.model()) {
                Some(v) => r matches Ok(a) && a == v,
                None => r is Err,
            },
    {
        let mut list = match e.as_list() {
            Ok(l) => l,
            Err(er) => {
                return Err(er);
            },
        };
        let ghost items = list.0@;
        proof {
            lemma_models_of(items);
        }
        let sym = match list.next_symbol() {
            Ok(s) => s,
            Err(er) => {
                return Err(er);
            },
        };
        if !str_eq(sym.as_str(), "attr") {
            return Err(ParserError::Unexpected {
                expected: String::from_str("attr"),
                found: sym.0,
            });
        }
        proof {
            assert(list.0@ =~= items.drop_first());
        }
        let mut attrs = FootprintAttributes {
            footprint_type: FootprintType::Smd,
            board_only: false,
            exclude_from_pos_files: false,
            exclude_from_bom: false,
            do_not_populate: false,
        };
        let ghost mut k: int = 1;
        loop
            invariant
                models_of(items).len() == items.len(),
                items.len() >= 1,
                1 <= k <= items.len(),
                list.0@ =~= items.skip(k),
                forall|i: int| 0 <= i < items.len() ==> #[trigger] models_of(items)[i]
                    == items[i].model(),
                spec_attr_fold(FootprintAttributes::spec_default(), models_of(items).drop_first())
                    == spec_attr_fold(attrs, models_of(items).skip(k)),
                spec_attrs_from(e.model()) == spec_attr_fold(
                    FootprintAttributes::spec_default(),
                    models_of(items).drop_first(),
                ),
            ensures
                list.0@.len() == 0,
                spec_attrs_from(e.model()) == spec_attr_fold(attrs, models_of(items).skip(k)),
                models_of(items).skip(k).len() == 0,
            decreases list.0@.len(),
        {
            proof {
                assert(models_of(items).skip(k).len() == list.0@.len());
                if list.0@.len() > 0 {
                    assert(items.skip(k)[0] == items[k]);
                    assert(models_of(items).skip(k)[0] == models_of(items)[k]);
                }
            }
            let nxt = match list.next_maybe_symbol() {
                Ok(o) => o,
                Err(er) => {
                    return Err(er);
                },
            };
            let kw = match nxt {
                Some(sym2) => sym2,
                None => {
                    break;
                },
            };
            if str_eq(kw.as_str(), "smd") {
                attrs.footprint_type = FootprintType::Smd;
            } else if str_eq(kw.as_str(), "through_hole") {
                attrs.footprint_type = FootprintType::ThroughHole;
            } else if str_eq(kw.as_str(), "board_only") {
                attrs.board_only = true;
            } else if str_eq(kw.as_str(), "exclude_from_pos_files") {
                attrs.exclude_from_pos_files = true;
            } else if str_eq(kw.as_str(), "exclude_from_bom") {
                attrs.exclude_from_bom = true;
            } else if str_eq(kw.as_str(), "dnp") || str_eq(kw.as_str(), "do_not_populate") {
                attrs.do_not_populate = true;
            }
            proof {
                assert(items.skip(k).drop_first() =~= items.skip(k + 1));
                assert(models_of(items).skip(k).drop_first() =~= models_of(items).skip(k + 1));
                k = k + 1;
            }
        }
        Ok(attrs)
    }
}

/// A net binding of a pad: the net's ordinal and name.
#[derive(Clone, Debug)]
pub struct PadNet {
    pub ordinal: i32,
    pub name: String,
}

/// One free-form key/value property of a footprint.
#[derive(Clone, Debug)]
pub struct FootprintProperty {
    pub key: String,
    pub value: String,
}

/// The mathematical value of a free-form property.
pub struct PropertyView {
    pub key: Seq<char>,
    pub value: Seq<char>,
}

/// The mathematical value of a pad's net binding.
pub struct PadNetView {
    pub ordinal: i32,
    pub name: Seq<char>,
}

/// The mathematical value of a custom pad graphic item.
pub enum PadGraphicView {
    Line { start: Point, end: Point },
    Rectangle { start: Point, end: Point },
    Circle { center: Point, end: Point },
    Arc { start: Point, mid: Point, end: Point },
    Polygon { points: Seq<Point> },
}

/// The mathematical value of a custom pad's shape items.
pub struct CustomPadPrimitivesView {
    pub graphics: Seq<PadGraphicView>,
    pub width: Scalar,
    pub fill: bool,
}

/// The mathematical value of a 3D model reference.
pub struct Model3DView {
    pub file: Seq<char>,
    pub position: Vec3,
    pub scale: Vec3,
    pub rotation: Vec3,
}

/// The view of an optional string.
pub open spec fn opt_str_view(o: Option<String>) -> Option<Seq<char>> {
    match o {
        Some(t) => Some(t@),
        None => None,
    }
}

/// The view of a pad graphic item.
pub open spec fn pad_graphic_view(g: PadGraphic) -> PadGraphicView {
    match g {
        PadGraphic::Line { start, end } => PadGraphicView::Line { start, end },
        PadGraphic::Rectangle { start, end } => PadGraphicView::Rectangle { start, end },
        PadGraphic::Circle { center, end } => PadGraphicView::Circle { center, end },
        PadGraphic::Arc { start, mid, end } => PadGraphicView::Arc { start, mid, end },
        PadGraphic::Polygon { points } => PadGraphicView::Polygon { points: points@ },
    }
}

/// The view of an optional custom-shape item list.
pub open spec fn opt_prims_view(o: Option<CustomPadPrimitives>) -> Option<
    CustomPadPrimitivesView,
> {
    match o {
        Some(p) => Some(
            CustomPadPrimitivesView {
                graphics: Seq::new(p.graphics@.len(), |i: int| pad_graphic_view(p.graphics@[i])),
                width: p.width,
                fill: p.fill,
            },
        ),
        None => None,
    }
}

/// A footprint pad.
#[derive(Clone, Debug)]
pub struct Pad {
    /// Pad number: free text, not necessarily numeric.
    pub number: String,
    /// Pad type.
    pub pad_type: PadType,
    /// Pad shape.
    pub shape: PadShape,
    /// Position and rotation.
    pub position: Position,
    /// Locked flag.
    pub locked: bool,
    /// Pad size.
    pub size: Size,
    /// Drill definition. The source format does not force a drill on
    /// through-hole pads and neither does this crate.
    pub drill: Option<Drill>,
    /// Layers the pad resides on.
    pub layers: Vec<Layer>,
    /// Special properties.
    pub properties: Vec<PadProperty>,
    /// Remove unused layers flag.
    pub remove_unused_layers: bool,
    /// Keep end layers flag.
    pub keep_end_layers: bool,
    /// Round rectangle ratio.
    pub roundrect_rratio: Option<Scalar>,
    /// Chamfer ratio.
    pub chamfer_ratio: Option<Scalar>,
    /// Chamfered corners.
    pub chamfer: Vec<PadCorner>,
    /// Net binding.
    pub net: Option<PadNet>,
    /// Unique identifier.
    pub uuid: Uuid,
    /// Pin function name.
    pub pin_function: Option<String>,
    /// Pin type.
    pub pin_type: Option<String>,
    /// Die length.
    pub die_length: Option<Scalar>,
    /// Solder mask margin override.
    pub solder_mask_margin: Option<Scalar>,
    /// Solder paste margin override.
    pub solder_paste_margin: Option<Scalar>,
    /// Solder paste margin ratio override.
    pub solder_paste_margin_ratio: Option<Scalar>,
    /// Clearance override.
    pub clearance: Option<Scalar>,
    /// Zone connection override.
    pub zone_connection: Option<ZoneConnect>,
    /// Thermal width override.
    pub thermal_width: Option<Scalar>,
    /// Thermal gap override.
    pub thermal_gap: Option<Scalar>,
    /// Custom pad options.
    pub custom_options: Option<CustomPadOptions>,
    /// Custom pad primitives.
    pub custom_primitives: Option<CustomPadPrimitives>,
}

/// The mathematical value of a `Pad`.
pub struct PadView {
    pub number: Seq<char>,
    pub pad_type: PadType,
    pub shape: PadShape,
    pub position: Position,
    pub locked: bool,
    pub size: Size,
    pub drill: Option<Drill>,
    pub layers: Seq<Seq<char>>,
    pub properties: Seq<PadProperty>,
    pub remove_unused_layers: bool,
    pub keep_end_layers: bool,
    pub roundrect_rratio: Option<Scalar>,
    pub chamfer_ratio: Option<Scalar>,
    pub chamfer: Seq<PadCorner>,
    pub net: Option<PadNetView>,
    pub uuid: Seq<char>,
    pub pin_function: Option<Seq<char>>,
    pub pin_type: Option<Seq<char>>,
    pub die_length: Option<Scalar>,
    pub solder_mask_margin: Option<Scalar>,
    pub solder_paste_margin: Option<Scalar>,
    pub solder_paste_margin_ratio: Option<Scalar>,
    pub clearance: Option<Scalar>,
    pub zone_connection: Option<ZoneConnect>,
    pub thermal_width: Option<Scalar>,
    pub thermal_gap: Option<Scalar>,
    pub custom_options: Option<CustomPadOptions>,
    pub custom_primitives: Option<CustomPadPrimitivesView>,
}

impl Pad {
    /// The ghost value of this pad.
    pub open spec fn model(self) -> PadView {
        PadView {
            number: self.number@,
            pad_type: self.pad_type,
            shape: self.shape,
            position: self.position,
            locked: self.locked,
            size: self.size,
            drill: self.drill,
            layers: spec_layer_names(self.layers@),
            properties: self.properties@,
            remove_unused_layers: self.remove_unused_layers,
            keep_end_layers: self.keep_end_layers,
            roundrect_rratio: self.roundrect_rratio,
            chamfer_ratio: self.chamfer_ratio,
            chamfer: self.chamfer@,
            net: match self.net {
                Some(n) => Some(PadNetView { ordinal: n.ordinal, name: n.name@ }),
                None => None,
            },
            uuid: self.uuid.0@,
            pin_function: opt_str_view(self.pin_function),
            pin_type: opt_str_view(self.pin_type),
            die_length: self.die_length,
            solder_mask_margin: self.solder_mask_margin,
            solder_paste_margin: self.solder_paste_margin,
            solder_paste_margin_ratio: self.solder_paste_margin_ratio,
            clearance: self.clearance,
            zone_connection: self.zone_connection,
            thermal_width: self.thermal_width,
            thermal_gap: self.thermal_gap,
            custom_options: self.custom_options,
            custom_primitives: opt_prims_view(self.custom_primitives),
        }
    }

    /// The all-defaults pad value.
    pub open spec fn spec_default() -> PadView {
        PadView {
            number: Seq::empty(),
            pad_type: PadType::ThroughHole,
            shape: PadShape::Rectangle,
            position: Position { x: Scalar { units: 0 }, y: Scalar { units: 0 }, angle: None },
            locked: false,
            size: Size { width: Scalar { units: 0 }, height: Scalar { units: 0 } },
            drill: None,
            layers: Seq::empty(),
            properties: Seq::empty(),
            remove_unused_layers: false,
            keep_end_layers: false,
            roundrect_rratio: None,
            chamfer_ratio: None,
            chamfer: Seq::empty(),
            net: None,
            uuid: Seq::empty(),
            pin_function: None,
            pin_type: None,
            die_length: None,
            solder_mask_margin: None,
            solder_paste_margin: None,
            solder_paste_margin_ratio: None,
            clearance: None,
            zone_connection: None,
            thermal_width: None,
            thermal_gap: None,
            custom_options: None,
            custom_primitives: None,
        }
    }
}

/// What a `(size w h ...)` field list names, if anything.
pub open spec fn spec_field_size(es: Seq<NodeModel>) -> Option<Size> {
    if es.len() >= 3 {
        match (spec_scalar_of(es[1]), spec_scalar_of(es[2])) {
            (Some(w), Some(h)) => Some(
                Size { width: Scalar { units: w as i64 }, height: Scalar { units: h as i64 } },
            ),
            _ => None,
        }
    } else {
        None
    }
}

/// Reads the pair of a `(size w h ...)` field list.
fn field_size(attr: SExprList) -> (r: Result<Size, ParserError>)
    ensures
        match spec_field_size(models_of(attr.0@)) {
            Some(v) => r matches Ok(sz) && sz == v,
            None => r is Err,
        },
{
    let mut list = attr;
    let ghost items = list.0@;
    proof {
        lemma_models_of(items);
    }
    match list.discard(1) {
        Ok(()) => {},
        Err(er) => {
            return Err(er);
        },
    }
    proof {
        if items.len() >= 2 {
            assert(items.subrange(1, items.len() as int)[0] == items[1]);
            assert(items.subrange(1, items.len() as int).drop_first() =~= items.subrange(
                2,
                items.len() as int,
            ));
        }
    }
    let w = match list.next_scalar() {
        Ok(v) => v,
        Err(er) => {
            return Err(er);
        },
    };
    proof {
        if items.len() >= 3 {
            assert(items.subrange(2, items.len() as int)[0] == items[2]);
        }
    }
    let h = match list.next_scalar() {
        Ok(v) => v,
        Err(er) => {
            return Err(er);
        },
    };
    Ok(Size { width: w, height: h })
}

/// What a `(net ordinal "name" ...)` field list names, if anything.
pub open spec fn spec_field_net(es: Seq<NodeModel>) -> Option<PadNetView> {
    if es.len() >= 3 {
        match spec_i32_of(es[1]) {
            Some(o) => match es[2] {
                NodeModel::Value(name) => Some(PadNetView { ordinal: o as i32, name }),
                _ => None,
            },
            None => None,
        }
    } else {
        None
    }
}

/// Reads the binding of a `(net ordinal "name" ...)` field list.
fn field_net(attr: SExprList) -> (r: Result<PadNet, ParserError>)
    ensures
        match spec_field_net(models_of(attr.0@)) {
            Some(v) => r matches Ok(n) && n.ordinal == v.ordinal && n.name@ == v.name,
            None => r is Err,
        },
{
    let mut list = attr;
    let ghost items = list.0@;
    proof {
        lemma_models_of(items);
    }
    match list.discard(1) {
        Ok(()) => {},
        Err(er) => {
            return Err(er);
        },
    }
    proof {
        if items.len() >= 2 {
            assert(items.subrange(1, items.len() as int)[0] == items[1]);
            assert(items.subrange(1, items.len() as int).drop_first() =~= items.subrange(
                2,
                items.len() as int,
            ));
        }
    }
    let o = match list.next_i32() {
        Ok(v) => v,
        Err(er) => {
            return Err(er);
        },
    };
    proof {
        if items.len() >= 3 {
            assert(items.subrange(2, items.len() as int)[0] == items[2]);
        }
    }
    let name = match list.next_string() {
        Ok(v) => v,
        Err(er) => {
            return Err(er);
        },
    };
    Ok(PadNet { ordinal: o, name })
}

/// One child's effect on a pad being read: the number, type and shape
/// keywords, and the recognized field lists, are applied; unknown keywords
/// and tags are tolerated.
pub open spec fn spec_pad_step(acc: PadView, m: NodeModel) -> Option<PadView> {
    match m {
        NodeModel::Value(t) => Some(PadView { number: t, ..acc }),
        NodeModel::Symbol(kw) => {
            if kw == "locked"@ {
                Some(PadView { locked: true, ..acc })
            } else if kw == "smd"@ {
                Some(PadView { pad_type: PadType::Smd, ..acc })
            } else if kw == "connect"@ {
                Some(PadView { pad_type: PadType::Connect, ..acc })
            } else if kw == "thru_hole"@ {
                Some(PadView { pad_type: PadType::ThroughHole, ..acc })
            } else if kw == "np_thru_hole"@ {
                Some(PadView { pad_type: PadType::NonPlatedThroughHole, ..acc })
            } else if kw == "oval"@ {
                Some(PadView { shape: PadShape::Oval, ..acc })
            } else if kw == "circle"@ {
                Some(PadView { shape: PadShape::Circle, ..acc })
            } else if kw == "custom"@ {
                Some(PadView { shape: PadShape::Custom, ..acc })
            } else if kw == "rect"@ {
                Some(PadView { shape: PadShape::Rectangle, ..acc })
            } else if kw == "trapezoid"@ {
                Some(PadView { shape: PadShape::Trapezoid, ..acc })
            } else if kw == "roundrect"@ {
                Some(PadView { shape: PadShape::RoundedRectangle, ..acc })
            } else {
                Some(acc)
            }
        },
        NodeModel::List(es) => {
            if es.len() == 0 {
                None
            } else {
                match es[0] {
                    NodeModel::Symbol(tag) => {
                        if tag == "size"@ {
                            match spec_field_size(es) {
                                Some(v) => Some(PadView { size: v, ..acc }),
                                None => None,
                            }
                        } else if tag == "at"@ {
                            match crate::common::positionals::spec_position_from(m) {
                                Some(v) => Some(PadView { position: v, ..acc }),
                                None => None,
                            }
                        } else if tag == "uuid"@ {
                            match spec_uuid_from(m) {
                                Some(v) => Some(PadView { uuid: v, ..acc }),
                                None => None,
                            }
                        } else if tag == "layers"@ {
                            match spec_layers_from(m) {
                                Some(v) => Some(PadView { layers: v, ..acc }),
                                None => None,
                            }
                        } else if tag == "net"@ {
                            match spec_field_net(es) {
                                Some(v) => Some(PadView { net: Some(v), ..acc }),
                                None => None,
                            }
                        } else if tag == "pintype"@ {
                            match spec_field_string(es) {
                                Some(v) => Some(PadView { pin_type: Some(v), ..acc }),
                                None => None,
                            }
                        } else {
                            Some(acc)
                        }
                    },
                    _ => None,
                }
            }
        },
        _ => Some(acc),
    }
}

/// What a `(pad ...)` list names, if anything.
pub open spec fn spec_pad_from(m: NodeModel) -> Option<PadView> {
    match m {
        NodeModel::List(es) => {
            if es.len() >= 1 && es[0] == NodeModel::Symbol("pad"@) {
                spec_fold(Pad::spec_default(), es.drop_first(), |a: PadView, c: NodeModel| spec_pad_step(a, c))
            } else {
                None
            }
        },
        _ => None,
    }
}

impl Pad {
    /// Reads a pad from its `(pad ...)` list. Unknown fields are tolerated
    /// and skipped.
    pub fn from_sexpr(e: SExpr) -> (r: Result<Pad, ParserError>)
        ensures
            match spec_pad_from(e.model()) {
                Some(v) => r matches Ok(p) && p.model() == v,
                None => r is Err,
            },
    {
        let ghost stepf = |a: PadView, c: NodeModel| spec_pad_step(a, c);
        let mut list = match e.as_list() {
            Ok(l) => l,
            Err(er) => {
                return Err(er);
            },
        };
        let ghost items = list.0@;
        proof {
            lemma_models_of(items);
        }
        let sym = match list.next_symbol() {
            Ok(s) => s,
            Err(er) => {
                return Err(er);
            },
        };
        if !str_eq(sym.as_str(), "pad") {
            return Err(ParserError::Unexpected {
                expected: String::from_str("pad"),
                found: sym.0,
            });
        }
        proof {
            assert(list.0@ =~= items.drop_first());
            assert(models_of(items).drop_first() =~= models_of(items).skip(1));
        }
        let mut g = Pad {
            number: String::new(),
            pad_type: PadType::ThroughHole,
            shape: PadShape::Rectangle,
            position: Position { x: Scalar { units: 0 }, y: Scalar { units: 0 }, angle: None },
            locked: false,
            size: Size { width: Scalar { units: 0 }, height: Scalar { units: 0 } },
            drill: None,
            layers: Vec::new(),
            properties: Vec::new(),
            remove_unused_layers: false,
            keep_end_layers: false,
            roundrect_rratio: None,
            chamfer_ratio: None,
            chamfer: Vec::new(),
            net: None,
            uuid: Uuid(String::new()),
            pin_function: None,
            pin_type: None,
            die_length: None,
            solder_mask_margin: None,
            solder_paste_margin: None,
            solder_paste_margin_ratio: None,
            clearance: None,
            zone_connection: None,
            thermal_width: None,
            thermal_gap: None,
            custom_options: None,
            custom_primitives: None,
        };
        proof {
            assert(g.model().layers =~= Pad::spec_default().layers);
            assert(g.model() == Pad::spec_default());
        }
        let ghost mut k: int = 1;
        loop
            invariant
                models_of(items).len() == items.len(),
                items.len() >= 1,
                1 <= k <= items.len(),
                list.0@ =~= items.skip(k),
                forall|i: int| 0 <= i < items.len() ==> #[trigger] models_of(items)[i]
                    == items[i].model(),
                spec_fold(Pad::spec_default(), models_of(items).drop_first(), stepf) == spec_fold(
                    g.model(),
                    models_of(items).skip(k),
                    stepf,
                ),
                spec_pad_from(e.model()) == spec_fold(
                    Pad::spec_default(),
                    models_of(items).drop_first(),
                    stepf,
                ),
                stepf == (|a: PadView, c: NodeModel| spec_pad_step(a, c)),
            ensures
                list.0@.len() == 0,
                spec_pad_from(e.model()) == spec_fold(g.model(), models_of(items).skip(k), stepf),
                models_of(items).skip(k).len() == 0,
            decreases list.0@.len(),
        {
            proof {
                assert(models_of(items).skip(k).len() == list.0@.len());
                if list.0@.len() > 0 {
                    assert(items.skip(k)[0] == items[k]);
                    assert(models_of(items).skip(k)[0] == models_of(items)[k]);
                }
            }
            let nxt = match list.next_maybe() {
                Some(c) => c,
                None => {
                    break;
                },
            };
            match nxt {
                SExpr::Value(v) => {
                    g.number = v.0;
                },
                SExpr::Symbol(kw) => {
                    if str_eq(kw.as_str(), "locked") {
                        g.locked = true;
                    } else if str_eq(kw.as_str(), "smd") {
                        g.pad_type = PadType::Smd;
                    } else if str_eq(kw.as_str(), "connect") {
                        g.pad_type = PadType::Connect;
                    } else if str_eq(kw.as_str(), "thru_hole") {
                        g.pad_type = PadType::ThroughHole;
                    } else if str_eq(kw.as_str(), "np_thru_hole") {
                        g.pad_type = PadType::NonPlatedThroughHole;
                    } else if str_eq(kw.as_str(), "oval") {
                        g.shape = PadShape::Oval;
                    } else if str_eq(kw.as_str(), "circle") {
                        g.shape = PadShape::Circle;
                    } else if str_eq(kw.as_str(), "custom") {
                        g.shape = PadShape::Custom;
                    } else if str_eq(kw.as_str(), "rect") {
                        g.shape = PadShape::Rectangle;
                    } else if str_eq(kw.as_str(), "trapezoid") {
                        g.shape = PadShape::Trapezoid;
                    } else if str_eq(kw.as_str(), "roundrect") {
                        g.shape = PadShape::RoundedRectangle;
                    }
                },
                SExpr::List(attr) => {
                    proof {
                        lemma_models_of(attr.0@);
                    }
                    let code: u32 = match attr.peek_name() {
                        Ok(name) => {
                            if str_eq(name, "size") {
                                1
                            } else if str_eq(name, "at") {
                                2
                            } else if str_eq(name, "uuid") {
                                3
                            } else if str_eq(name, "layers") {
                                4
                            } else if str_eq(name, "net") {
                                5
                            } else if str_eq(name, "pintype") {
                                6
                            } else {
                                0
                            }
                        },
                        Err(er) => {
                            return Err(er);
                        },
                    };
                    if code == 1 {
                        let v = match field_size(attr) {
                            Ok(v) => v,
                            Err(er) => {
                                return Err(er);
                            },
                        };
                        g.size = v;
                    } else if code == 2 {
                        let v = match Position::from_sexpr(SExpr::List(attr)) {
                            Ok(v) => v,
                            Err(er) => {
                                return Err(er);
                            },
                        };
                        g.position = v;
                    } else if code == 3 {
                        let v = match Uuid::from_sexpr(SExpr::List(attr)) {
                            Ok(v) => v,
                            Err(er) => {
                                return Err(er);
                            },
                        };
                        g.uuid = v;
                    } else if code == 4 {
                        let v = match layers_from_sexpr(SExpr::List(attr)) {
                            Ok(v) => v,
                            Err(er) => {
                                return Err(er);
                            },
                        };
                        g.layers = v;
                    } else if code == 5 {
                        let v = match field_net(attr) {
                            Ok(v) => v,
                            Err(er) => {
                                return Err(er);
                            },
                        };
                        g.net = Some(v);
                    } else if code == 6 {
                        let v = match field_string(attr) {
                            Ok(v) => v,
                            Err(er) => {
                                return Err(er);
                            },
                        };
                        g.pin_type = Some(v);
                    }
                },
                _ => {},
            }
            proof {
                assert(items.skip(k).drop_first() =~= items.skip(k + 1));
                assert(models_of(items).skip(k).drop_first() =~= models_of(items).skip(k + 1));
                k = k + 1;
            }
        }
        Ok(g)
    }
}

/// The views of a graphic vector, element by element.
pub open spec fn graphic_views(gs: Seq<Graphic>) -> Seq<GraphicView> {
    Seq::new(gs.len(), |i: int| gs[i].model())
}

/// The views of a pad vector, element by element.
pub open spec fn pad_views(ps: Seq<Pad>) -> Seq<PadView> {
    Seq::new(ps.len(), |i: int| ps[i].model())
}

/// The views of a property vector, element by element.
pub open spec fn property_views(ps: Seq<FootprintProperty>) -> Seq<PropertyView> {
    Seq::new(ps.len(), |i: int| PropertyView { key: ps[i].key@, value: ps[i].value@ })
}

/// The views of a model vector, element by element.
pub open spec fn model3d_views(ms: Seq<Model3D>) -> Seq<Model3DView> {
    Seq::new(
        ms.len(),
        |i: int| Model3DView {
            file: ms[i].file@,
            position: ms[i].position,
            scale: ms[i].scale,
            rotation: ms[i].rotation,
        },
    )
}

/// The views of a string-group vector, element by element.
pub open spec fn string_group_views(gs: Seq<Vec<String>>) -> Seq<Seq<Seq<char>>> {
    Seq::new(gs.len(), |i: int| Seq::new(gs[i]@.len(), |j: int| gs[i]@[j]@))
}

/// The index of the first property with the given key, or the sequence's
/// length when none has it.
pub open spec fn spec_prop_find(props: Seq<PropertyView>, key: Seq<char>, i: int) -> int
    decreases props.len() - i,
{
    if 0 <= i < props.len() {
        if props[i].key == key {
            i
        } else {
            spec_prop_find(props, key, i + 1)
        }
    } else {
        props.len() as int
    }
}

/// Properties after inserting a key/value pair: the first property with the
/// key is replaced, or the pair appended when the key is new.
pub open spec fn spec_prop_upsert(props: Seq<PropertyView>, key: Seq<char>, value: Seq<char>) -> Seq<
    PropertyView,
> {
    let i = spec_prop_find(props, key, 0);
    if i < props.len() {
        props.update(i, PropertyView { key, value })
    } else {
        props.push(PropertyView { key, value })
    }
}

/// The first match at or after `i` really is `d`: nothing before it has the
/// key, and either `d` has it or nothing does.
proof fn lemma_prop_find_first(props: Seq<PropertyView>, key: Seq<char>, i: int, d: int)
    requires
        0 <= i <= d <= props.len(),
        forall|m: int| i <= m < d ==> #[trigger] props[m].key != key,
        d < props.len() ==> props[d].key == key,
    ensures
        spec_prop_find(props, key, i) == if d < props.len() {
            d
        } else {
            props.len() as int
        },
    decreases d - i,
{
    if i < d {
        lemma_prop_find_first(props, key, i + 1, d);
    }
}

/// Inserts a key/value pair, replacing the first property with the key or
/// appending a new one.
fn prop_upsert(props: &mut Vec<FootprintProperty>, key: String, value: String)
    ensures
        property_views(final(props)@) == spec_prop_upsert(
            property_views(old(props)@),
            key@,
            value@,
        ),
{
    let ghost pv = property_views(props@);
    let n = props.len();
    let mut i: usize = 0;
    while i < n
        invariant
            n == props@.len(),
            i <= n,
            props@ == old(props)@,
            pv == property_views(props@),
            pv.len() == n,
            forall|m: int| 0 <= m < i ==> #[trigger] pv[m].key != key@,
        decreases n - i,
    {
        if str_eq(props[i].key.as_str(), key.as_str()) {
            proof {
                assert(pv[i as int].key == props@[i as int].key@);
                lemma_prop_find_first(pv, key@, 0, i as int);
            }
            let ghost before = props@;
            props.set(i, FootprintProperty { key, value });
            proof {
                assert(property_views(props@) =~= property_views(before).update(
                    i as int,
                    PropertyView { key: key@, value: value@ },
                ));
            }
            return ;
        }
        proof {
            assert(pv[i as int].key == props@[i as int].key@);
        }
        i = i + 1;
    }
    proof {
        lemma_prop_find_first(pv, key@, 0, n as int);
    }
    let ghost before = props@;
    props.push(FootprintProperty { key, value });
    proof {
        assert(property_views(props@) =~= property_views(before).push(
            PropertyView { key: key@, value: value@ },
        ));
    }
}

/// A placed component: its identity, placement, free-form properties,
/// graphics and pads.
#[derive(Clone, Debug)]
pub struct Footprint {
    /// Library link, for board footprints.
    pub library_link: Option<String>,
    /// Locked flag: cannot be edited.
    pub locked: bool,
    /// Placed flag.
    pub placed: bool,
    /// Layer the footprint is placed on.
    pub layer: Layer,
    /// Last edit time.
    pub tedit: Option<String>,
    /// Unique identifier, for board footprints.
    pub uuid: Option<Uuid>,
    /// Position and rotation.
    pub position: Option<Position>,
    /// Search tags.
    pub tags: Option<String>,
    /// Description.
    pub description: Option<String>,
    /// Free-form key/value properties; keys are unique, the last write to a
    /// key wins, and insertion order is otherwise kept.
    pub properties: Vec<FootprintProperty>,
    /// Hierarchical path, for board footprints.
    pub path: Option<String>,
    /// Autoplace cost for quarter-turn rotation.
    pub autoplace_cost90: Option<i32>,
    /// Autoplace cost for half-turn rotation.
    pub autoplace_cost180: Option<i32>,
    /// Solder mask margin override.
    pub solder_mask_margin: Option<Scalar>,
    /// Solder paste margin override.
    pub solder_paste_margin: Option<Scalar>,
    /// Solder paste ratio override.
    pub solder_paste_ratio: Option<Scalar>,
    /// Clearance override.
    pub clearance: Option<Scalar>,
    /// Zone connection override.
    pub zone_connect: Option<ZoneConnect>,
    /// Thermal relief width override.
    pub thermal_width: Option<Scalar>,
    /// Thermal relief gap override.
    pub thermal_gap: Option<Scalar>,
    /// Footprint attributes.
    pub attributes: Option<FootprintAttributes>,
    /// Private layers.
    pub private_layers: Vec<Layer>,
    /// Net-tie pad groups.
    pub net_tie_pad_groups: Vec<Vec<String>>,
    /// Graphic items.
    pub graphics: Vec<Graphic>,
    /// Pads.
    pub pads: Vec<Pad>,
    /// Keep-out zones.
    pub zones: Vec<Zone>,
    /// Grouped objects.
    pub groups: Vec<Group>,
    /// 3D model references.
    pub models: Vec<Model3D>,
}

/// The mathematical value of a `Footprint`.
pub struct FootprintView {
    pub library_link: Option<Seq<char>>,
    pub locked: bool,
    pub placed: bool,
    pub layer: Seq<char>,
    pub tedit: Option<Seq<char>>,
    pub uuid: Option<Seq<char>>,
    pub position: Option<Position>,
    pub tags: Option<Seq<char>>,
    pub description: Option<Seq<char>>,
    pub properties: Seq<PropertyView>,
    pub path: Option<Seq<char>>,
    pub autoplace_cost90: Option<i32>,
    pub autoplace_cost180: Option<i32>,
    pub solder_mask_margin: Option<Scalar>,
    pub solder_paste_margin: Option<Scalar>,
    pub solder_paste_ratio: Option<Scalar>,
    pub clearance: Option<Scalar>,
    pub zone_connect: Option<ZoneConnect>,
    pub thermal_width: Option<Scalar>,
    pub thermal_gap: Option<Scalar>,
    pub attributes: Option<FootprintAttributes>,
    pub private_layers: Seq<Seq<char>>,
    pub net_tie_pad_groups: Seq<Seq<Seq<char>>>,
    pub graphics: Seq<GraphicView>,
    pub pads: Seq<PadView>,
    pub zones: Seq<Zone>,
    pub groups: Seq<Group>,
    pub models: Seq<Model3DView>,
}

impl Footprint {
    /// The ghost value of this footprint.
    pub open spec fn model(self) -> FootprintView {
        FootprintView {
            library_link: opt_str_view(self.library_link),
            locked: self.locked,
            placed: self.placed,
            layer: self.layer.0@,
            tedit: opt_str_view(self.tedit),
            uuid: match self.uuid {
                Some(u) => Some(u.0@),
                None => None,
            },
            position: self.position,
            tags: opt_str_view(self.tags),
            description: opt_str_view(self.description),
            properties: property_views(self.properties@),
            path: opt_str_view(self.path),
            autoplace_cost90: self.autoplace_cost90,
            autoplace_cost180: self.autoplace_cost180,
            solder_mask_margin: self.solder_mask_margin,
            solder_paste_margin: self.solder_paste_margin,
            solder_paste_ratio: self.solder_paste_ratio,
            clearance: self.clearance,
            zone_connect: self.zone_connect,
            thermal_width: self.thermal_width,
            thermal_gap: self.thermal_gap,
            attributes: self.attributes,
            private_layers: spec_layer_names(self.private_layers@),
            net_tie_pad_groups: string_group_views(self.net_tie_pad_groups@),
            graphics: graphic_views(self.graphics@),
            pads: pad_views(self.pads@),
            zones: self.zones@,
            groups: self.groups@,
            models: model3d_views(self.models@),
        }
    }

    /// The all-defaults footprint value.
    pub open spec fn spec_default() -> FootprintView {
        FootprintView {
            library_link: None,
            locked: false,
            placed: false,
            layer: Seq::empty(),
            tedit: None,
            uuid: None,
            position: None,
            tags: None,
            description: None,
            properties: Seq::empty(),
            path: None,
            autoplace_cost90: None,
            autoplace_cost180: None,
            solder_mask_margin: None,
            solder_paste_margin: None,
            solder_paste_ratio: None,
            clearance: None,
            zone_connect: None,
            thermal_width: None,
            thermal_gap: None,
            attributes: None,
            private_layers: Seq::empty(),
            net_tie_pad_groups: Seq::empty(),
            graphics: Seq::empty(),
            pads: Seq::empty(),
            zones: Seq::empty(),
            groups: Seq::empty(),
            models: Seq::empty(),
        }
    }
}

/// The key a `(property ...)` field names: a quoted value or a bare symbol.
pub open spec fn spec_prop_key(m: NodeModel) -> Option<Seq<char>> {
    match m {
        NodeModel::Value(t) => Some(t),
        NodeModel::Symbol(t) => Some(t),
        _ => None,
    }
}

/// One child's effect on a footprint being read: recognized fields are
/// applied, graphics and pads are collected, and unknown keywords and tags
/// are tolerated.
pub open spec fn spec_footprint_step(acc: FootprintView, m: NodeModel) -> Option<FootprintView> {
    match m {
        NodeModel::Value(t) => Some(FootprintView { library_link: Some(t), ..acc }),
        NodeModel::Symbol(kw) => {
            if kw == "locked"@ {
                Some(FootprintView { locked: true, ..acc })
            } else if kw == "placed"@ {
                Some(FootprintView { placed: true, ..acc })
            } else {
                Some(acc)
            }
        },
        NodeModel::List(es) => {
            if es.len() == 0 {
                None
            } else {
                match es[0] {
                    NodeModel::Symbol(tag) => {
                        if tag == "uuid"@ {
                            match spec_uuid_from(m) {
                                Some(v) => Some(FootprintView { uuid: Some(v), ..acc }),
                                None => None,
                            }
                        } else if tag == "layer"@ {
                            match spec_layer_from(m) {
                                Some(v) => Some(FootprintView { layer: v, ..acc }),
                                None => None,
                            }
                        } else if tag == "descr"@ || tag == "description"@ {
                            match spec_field_string(es) {
                                Some(v) => Some(FootprintView { description: Some(v), ..acc }),
                                None => None,
                            }
                        } else if tag == "at"@ {
                            match crate::common::positionals::spec_position_from(m) {
                                Some(v) => Some(FootprintView { position: Some(v), ..acc }),
                                None => None,
                            }
                        } else if tag == "tags"@ {
                            match spec_field_string(es) {
                                Some(v) => Some(FootprintView { tags: Some(v), ..acc }),
                                None => None,
                            }
                        } else if tag == "path"@ {
                            match spec_field_string(es) {
                                Some(v) => Some(FootprintView { path: Some(v), ..acc }),
                                None => None,
                            }
                        } else if tag == "attr"@ {
                            match spec_attrs_from(m) {
                                Some(v) => Some(FootprintView { attributes: Some(v), ..acc }),
                                None => None,
                            }
                        } else if tag == "pad"@ {
                            match spec_pad_from(m) {
                                Some(v) => Some(FootprintView { pads: acc.pads.push(v), ..acc }),
                                None => None,
                            }
                        } else if tag == "property"@ {
                            if es.len() >= 3 {
                                match (spec_prop_key(es[1]), es[2]) {
                                    (Some(key), NodeModel::Value(value)) => Some(
                                        FootprintView {
                                            properties: spec_prop_upsert(
                                                acc.properties,
                                                key,
                                                value,
                                            ),
                                            ..acc
                                        },
                                    ),
                                    _ => None,
                                }
                            } else {
                                None
                            }
                        } else if spec_starts_with(tag, "fp_"@) {
                            match spec_graphic_from(m) {
                                Some(v) => Some(
                                    FootprintView { graphics: acc.graphics.push(v), ..acc },
                                ),
                                None => None,
                            }
                        } else {
                            Some(acc)
                        }
                    },
                    _ => None,
                }
            }
        },
        _ => Some(acc),
    }
}

/// What a `(footprint ...)` list names, if anything.
pub open spec fn spec_footprint_from(m: NodeModel) -> Option<FootprintView> {
    match m {
        NodeModel::List(es) => {
            if es.len() >= 1 && es[0] == NodeModel::Symbol("footprint"@) {
                spec_fold(Footprint::spec_default(), es.drop_first(), |a: FootprintView, c: NodeModel| spec_footprint_step(a, c))
            } else {
                None
            }
        },
        _ => None,
    }
}

impl Footprint {
    /// Reads a footprint from its `(footprint ...)` list. Unknown fields
    /// are tolerated and skipped.
    pub fn from_sexpr(e: SExpr) -> (r: Result<Footprint, ParserError>)
        ensures
            match spec_footprint_from(e.model()) {
                Some(v) => r matches Ok(f) && f.model() == v,
                None => r is Err,
            },
    {
        let ghost stepf = |a: FootprintView, c: NodeModel| spec_footprint_step(a, c);
        let mut list = match e.as_list() {
            Ok(l) => l,
            Err(er) => {
                return Err(er);
            },
        };
        let ghost items = list.0@;
        proof {
            lemma_models_of(items);
        }
        let sym = match list.next_symbol() {
            Ok(s) => s,
            Err(er) => {
                return Err(er);
            },
        };
        if !str_eq(sym.as_str(), "footprint") {
            return Err(ParserError::Unexpected {
                expected: String::from_str("footprint"),
                found: sym.0,
            });
        }
        proof {
            assert(list.0@ =~= items.drop_first());
            assert(models_of(items).drop_first() =~= models_of(items).skip(1));
        }
        let mut g = Footprint {
            library_link: None,
            locked: false,
            placed: false,
            layer: Layer(String::new()),
            tedit: None,
            uuid: None,
            position: None,
            tags: None,
            description: None,
            properties: Vec::new(),
            path: None,
            autoplace_cost90: None,
            autoplace_cost180: None,
            solder_mask_margin: None,
            solder_paste_margin: None,
            solder_paste_ratio: None,
            clearance: None,
            zone_connect: None,
            thermal_width: None,
            thermal_gap: None,
            attributes: None,
            private_layers: Vec::new(),
            net_tie_pad_groups: Vec::new(),
            graphics: Vec::new(),
            pads: Vec::new(),
            zones: Vec::new(),
            groups: Vec::new(),
            models: Vec::new(),
        };
        proof {
            assert(g.model().properties =~= Footprint::spec_default().properties);
            assert(g.model().private_layers =~= Footprint::spec_default().private_layers);
            assert(g.model().net_tie_pad_groups =~= Footprint::spec_default().net_tie_pad_groups);
            assert(g.model().graphics =~= Footprint::spec_default().graphics);
            assert(g.model().pads =~= Footprint::spec_default().pads);
            assert(g.model().models =~= Footprint::spec_default().models);
            assert(g.model() == Footprint::spec_default());
        }
        let ghost mut k: int = 1;
        loop
            invariant
                models_of(items).len() == items.len(),
                items.len() >= 1,
                1 <= k <= items.len(),
                list.0@ =~= items.skip(k),
                forall|i: int| 0 <= i < items.len() ==> #[trigger] models_of(items)[i]
                    == items[i].model(),
                spec_fold(Footprint::spec_default(), models_of(items).drop_first(), stepf)
                    == spec_fold(g.model(), models_of(items).skip(k), stepf),
                spec_footprint_from(e.model()) == spec_fold(
                    Footprint::spec_default(),
                    models_of(items).drop_first(),
                    stepf,
                ),
                stepf == (|a: FootprintView, c: NodeModel| spec_footprint_step(a, c)),
            ensures
                list.0@.len() == 0,
                spec_footprint_from(e.model()) == spec_fold(
                    g.model(),
                    models_of(items).skip(k),
                    stepf,
                ),
                models_of(items).skip(k).len() == 0,
            decreases list.0@.len(),
        {
            proof {
                assert(models_of(items).skip(k).len() == list.0@.len());
                if list.0@.len() > 0 {
                    assert(items.skip(k)[0] == items[k]);
                    assert(models_of(items).skip(k)[0] == models_of(items)[k]);
                }
            }
            let nxt = match list.next_maybe() {
                Some(c) => c,
                None => {
                    break;
                },
            };
            match nxt {
                SExpr::Value(v) => {
                    g.library_link = Some(v.0);
                },
                SExpr::Symbol(kw) => {
                    if str_eq(kw.as_str(), "locked") {
                        g.locked = true;
                    } else if str_eq(kw.as_str(), "placed") {
                        g.placed = true;
                    }
                },
                SExpr::List(attr) => {
                    proof {
                        lemma_models_of(attr.0@);
                    }
                    let code: u32 = match attr.peek_name() {
                        Ok(name) => {
                            if str_eq(name, "uuid") {
                                1
                            } else if str_eq(name, "layer") {
                                2
                            } else if str_eq(name, "descr") || str_eq(name, "description") {
                                3
                            } else if str_eq(name, "at") {
                                4
                            } else if str_eq(name, "tags") {
                                5
                            } else if str_eq(name, "path") {
                                6
                            } else if str_eq(name, "attr") {
                                7
                            } else if str_eq(name, "pad") {
                                8
                            } else if str_eq(name, "property") {
                                9
                            } else if str_starts_with(name, "fp_") {
                                10
                            } else {
                                0
                            }
                        },
                        Err(er) => {
                            return Err(er);
                        },
                    };
                    if code == 1 {
                        let v = match Uuid::from_sexpr(SExpr::List(attr)) {
                            Ok(v) => v,
                            Err(er) => {
                                return Err(er);
                            },
                        };
                        g.uuid = Some(v);
                    } else if code == 2 {
                        let v = match Layer::from_sexpr(SExpr::List(attr)) {
                            Ok(v) => v,
                            Err(er) => {
                                return Err(er);
                            },
                        };
                        g.layer = v;
                    } else if code == 3 {
                        let v = match field_string(attr) {
                            Ok(v) => v,
                            Err(er) => {
                                return Err(er);
                            },
                        };
                        g.description = Some(v);
                    } else if code == 4 {
                        let v = match Position::from_sexpr(SExpr::List(attr)) {
                            Ok(v) => v,
                            Err(er) => {
                                return Err(er);
                            },
                        };
                        g.position = Some(v);
                    } else if code == 5 {
                        let v = match field_string(attr) {
                            Ok(v) => v,
                            Err(er) => {
                                return Err(er);
                            },
                        };
                        g.tags = Some(v);
                    } else if code == 6 {
                        let v = match field_string(attr) {
                            Ok(v) => v,
                            Err(er) => {
                                return Err(er);
                            },
                        };
                        g.path = Some(v);
                    } else if code == 7 {
                        let v = match FootprintAttributes::from_sexpr(SExpr::List(attr)) {
                            Ok(v) => v,
                            Err(er) => {
                                return Err(er);
                            },
                        };
                        g.attributes = Some(v);
                    } else if code == 8 {
                        let v = match Pad::from_sexpr(SExpr::List(attr)) {
                            Ok(v) => v,
                            Err(er) => {
                                return Err(er);
                            },
                        };
                        let ghost before = g.pads@;
                        g.pads.push(v);
                        proof {
                            assert(pad_views(g.pads@) =~= pad_views(before).push(
                                g.pads@[g.pads@.len() - 1].model(),
                            ));
                        }
                    } else if code == 9 {
                        let mut plist = attr;
                        let ghost pitems = plist.0@;
                        match plist.discard(1) {
                            Ok(()) => {},
                            Err(er) => {
                                return Err(er);
                            },
                        }
                        proof {
                            if pitems.len() >= 2 {
                                assert(pitems.subrange(1, pitems.len() as int)[0] == pitems[1]);
                                assert(pitems.subrange(1, pitems.len() as int).drop_first()
                                    =~= pitems.subrange(2, pitems.len() as int));
                            }
                        }
                        let keynode = match plist.next_any() {
                            Ok(v) => v,
                            Err(er) => {
                                return Err(er);
                            },
                        };
                        let key = match keynode {
                            SExpr::Value(v) => v.0,
                            SExpr::Symbol(sy) => sy.0,
                            _ => {
                                return Err(
                                    ParserError::UnexpectedSExpr {
                                        expected: String::from_str("value or symbol"),
                                    },
                                );
                            },
                        };
                        proof {
                            if pitems.len() >= 3 {
                                assert(pitems.subrange(2, pitems.len() as int)[0] == pitems[2]);
                            }
                        }
                        let value = match plist.next_string() {
                            Ok(v) => v,
                            Err(er) => {
                                return Err(er);
                            },
                        };
                        prop_upsert(&mut g.properties, key, value);
                    } else if code == 10 {
                        let v = match Graphic::from_sexpr(SExpr::List(attr)) {
                            Ok(v) => v,
                            Err(er) => {
                                return Err(er);
                            },
                        };
                        let ghost before = g.graphics@;
                        g.graphics.push(v);
                        proof {
                            assert(graphic_views(g.graphics@) =~= graphic_views(before).push(
                                g.graphics@[g.graphics@.len() - 1].model(),
                            ));
                        }
                    }
                },
                _ => {},
            }
            proof {
                assert(items.skip(k).drop_first() =~= items.skip(k + 1));
                assert(models_of(items).skip(k).drop_first() =~= models_of(items).skip(k + 1));
                k = k + 1;
            }
        }
        Ok(g)
    }
}

/// The box spanning a run of graphics, leaving out those on the
/// fabrication layer `F.Fab`.
pub open spec fn spec_graphics_envelope(gs: Seq<Graphic>) -> BoundingBox
    decreases gs.len(),
{
    if gs.len() == 0 {
        spec_empty_box()
    } else {
        let rest = spec_graphics_envelope(gs.drop_last());
        if gs.last().spec_layer() == "F.Fab"@ {
            rest
        } else {
            spec_envelop(rest, gs.last().spec_bounding_box())
        }
    }
}

impl GetBoundingBox for Footprint {
    /// The union of the boxes of all graphics except those on the
    /// fabrication layer, translated by the footprint's own position.
    open spec fn spec_bounding_box(&self) -> BoundingBox {
        let b = spec_graphics_envelope(self.graphics@);
        let dx = match self.position {
            Some(p) => p.x.as_int(),
            None => 0,
        };
        let dy = match self.position {
            Some(p) => p.y.as_int(),
            None => 0,
        };
        BoundingBox {
            min_x: Scalar { units: sat_i64(b.min_x.as_int() + dx) as i64 },
            min_y: Scalar { units: sat_i64(b.min_y.as_int() + dy) as i64 },
            max_x: Scalar { units: sat_i64(b.max_x.as_int() + dx) as i64 },
            max_y: Scalar { units: sat_i64(b.max_y.as_int() + dy) as i64 },
        }
    }

    fn bounding_box(&self) -> (r: BoundingBox)
        ensures
            r == self.spec_bounding_box(),
    {
        let mut b = BoundingBox::empty();
        let n = self.graphics.len();
        let mut i: usize = 0;
        while i < n
            invariant
                n == self.graphics@.len(),
                i <= n,
                b == spec_graphics_envelope(self.graphics@.take(i as int)),
            decreases n - i,
        {
            let gr = &self.graphics[i];
            if !str_eq(gr.layer().as_str(), "F.Fab") {
                let gb = gr.bounding_box();
                b.envelop(&gb);
            }
            i = i + 1;
            proof {
                assert(self.graphics@.take(i as int).drop_last() =~= self.graphics@.take(
                    i as int - 1,
                ));
                assert(self.graphics@.take(i as int).last() == self.graphics@[i as int - 1]);
                reveal_strlit("F.Fab");
            }
        }
        proof {
            assert(self.graphics@.take(n as int) =~= self.graphics@);
        }
        let dx = match &self.position {
            Some(p) => p.x,
            None => Scalar { units: 0 },
        };
        let dy = match &self.position {
            Some(p) => p.y,
            None => Scalar { units: 0 },
        };
        b.move_by(dx, dy);
        b
    }
}

} // verus!
