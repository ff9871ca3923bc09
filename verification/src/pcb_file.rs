//! The board file: its header fields, layer and net declarations, top-level
//! graphics and footprints, and the board outline's bounding box.

use vstd::prelude::*;

verus! {

use crate::common::footprint::{spec_footprint_from, Footprint, FootprintView};
use crate::common::graphic::{
    field_scalar, field_string, spec_field_scalar, spec_field_string, spec_graphic_from, Graphic,
    GraphicView,
};
use crate::common::positionals::{spec_empty_box, spec_envelop, BoundingBox, GetBoundingBox};
use crate::parser::ParserError;
use crate::scalar::Scalar;
use crate::sexpr::cursor::spec_u32_of;
use crate::sexpr::parse_sexpr::spec_parse_root;
use crate::sexpr::{
    lemma_models_of, models_of, spec_fold, spec_starts_with, str_eq, str_starts_with, NodeModel,
    SExpr, SExprList,
};

/// A free-form key/value property of a board.
#[derive(Clone, Debug, Default)]
pub struct PcbProperty {
    pub key: String,
    pub value: String,
}

/// A net declaration: its ordinal and name.
#[derive(Clone, Debug, Default)]
pub struct PcbNet {
    pub ordinal: u32,
    pub name: String,
}

/// The mathematical value of a net declaration.
pub struct PcbNetView {
    pub ordinal: u32,
    pub name: Seq<char>,
}

impl PcbNet {
    /// The ghost value of this net.
    pub open spec fn model(self) -> PcbNetView {
        PcbNetView { ordinal: self.ordinal, name: self.name@ }
    }
}

/// The kind of a declared layer.
#[derive(Clone, Copy, Debug, PartialEq, Eq, Structural, Default)]
pub enum PcbLayerType {
    #[default]
    User,
    Jumper,
    Mixed,
    Power,
    Signal,
}

/// One layer declaration: ordinal, name, kind and optional user name.
/// Ordinals give the stacking order.
#[derive(Clone, Debug, Default)]
pub struct PcbLayer {
    /// The stacking ordinal.
    pub ordinal: u32,
    /// The canonical layer name.
    pub name: String,
    /// The layer's kind.
    pub layer_type: PcbLayerType,
    /// The custom user name, when one was given.
    pub user_name: Option<String>,
}

/// The mathematical value of a layer declaration.
pub struct PcbLayerView {
    pub ordinal: u32,
    pub name: Seq<char>,
    pub layer_type: PcbLayerType,
    pub user_name: Option<Seq<char>>,
}

impl PcbLayer {
    /// The ghost value of this layer declaration.
    pub open spec fn model(self) -> PcbLayerView {
        PcbLayerView {
            ordinal: self.ordinal,
            name: self.name@,
            layer_type: self.layer_type,
            user_name: crate::common::footprint::opt_str_view(self.user_name),
        }
    }
}

/// General board settings.
#[derive(Clone, Copy, Debug, PartialEq, Eq, Structural)]
pub struct PcbFileGeneral {
    /// The overall board thickness.
    pub thickness: Scalar,
}

/// Manufacturing parameters of a board.
#[derive(Clone, Debug)]
pub struct PcbSetup {
    /// Stack-up parameters, when given.
    pub stack_up_settings: Option<PcbStackUpSettings>,
    /// Clearance between footprint pads and the solder mask.
    pub pad_to_mask_clearance: Scalar,
    /// Minimum solder mask width; zero when not given.
    pub solder_mask_min_width: Option<Scalar>,
    /// Clearance between footprint pads and the solder paste layer.
    pub pad_to_paste_clearance: Option<Scalar>,
    /// Pad-to-paste clearance as a percentage of the pad.
    pub pad_to_paste_clearance_ratio: Option<Scalar>,
    /// The auxiliary origin, when not the board origin.
    pub aux_axis_origin: Option<crate::common::positionals::Point>,
    /// The grid origin, when not the board origin.
    pub grid_origin: Option<crate::common::positionals::Point>,
}

/// Stack-up parameters required to manufacture a board.
#[derive(Clone, Debug, Default)]
pub struct PcbStackUpSettings {
    /// The copper finish used to manufacture the board.
    pub copper_finish: Option<String>,
    /// Whether the board must meet all dielectric requirements.
    pub dielectric_constraints: Option<bool>,
    /// Whether the board has an edge connector, and whether it is bevelled.
    pub edge_connector: Option<EdgeConnectorSetting>,
    /// Whether the board edges contain castellated pads.
    pub castellated_pads: Option<bool>,
    /// Whether the board edges should be plated.
    pub edge_plating: Option<bool>,
}

/// Edge connector styles.
#[derive(Clone, Copy, Debug, PartialEq, Eq, Structural, Default)]
pub enum EdgeConnectorSetting {
    #[default]
    Bevelled,
    Yes,
}

/// The decimal digit character for a value below ten.
pub open spec fn spec_digit_char(d: int) -> char {
    if d == 0 {
        '0'
    } else if d == 1 {
        '1'
    } else if d == 2 {
        '2'
    } else if d == 3 {
        '3'
    } else if d == 4 {
        '4'
    } else if d == 5 {
        '5'
    } else if d == 6 {
        '6'
    } else if d == 7 {
        '7'
    } else if d == 8 {
        '8'
    } else {
        '9'
    }
}

/// The decimal rendering of an unsigned number, most significant digit
/// first.
pub open spec fn spec_u64_str(n: nat) -> Seq<char>
    decreases n,
{
    if n < 10 {
        seq![spec_digit_char(n as int)]
    } else {
        spec_u64_str(n / 10).push(spec_digit_char((n % 10) as int))
    }
}

/// The character of one decimal digit.
fn digit_str(d: u64) -> (r: &'static str)
    requires
        d < 10,
    ensures
        r@ == seq![spec_digit_char(d as int)],
{
    proof {
        reveal_strlit("0");
        reveal_strlit("1");
        reveal_strlit("2");
        reveal_strlit("3");
        reveal_strlit("4");
        reveal_strlit("5");
        reveal_strlit("6");
        reveal_strlit("7");
        reveal_strlit("8");
        reveal_strlit("9");
    }
    let r = if d == 0 {
        "0"
    } else if d == 1 {
        "1"
    } else if d == 2 {
        "2"
    } else if d == 3 {
        "3"
    } else if d == 4 {
        "4"
    } else if d == 5 {
        "5"
    } else if d == 6 {
        "6"
    } else if d == 7 {
        "7"
    } else if d == 8 {
        "8"
    } else {
        "9"
    };
    proof {
        assert(r@ =~= seq![spec_digit_char(d as int)]);
    }
    r
}

/// Renders an unsigned number in decimal.
pub fn u64_to_string(n: u64) -> (r: String)
    ensures
        r@ == spec_u64_str(n as nat),
    decreases n,
{
    if n < 10 {
        String::from_str(digit_str(n))
    } else {
        let mut s = u64_to_string(n / 10);
        s.append(digit_str(n % 10));
        proof {
            assert(s@ =~= spec_u64_str((n / 10) as nat).push(spec_digit_char((n % 10) as int)));
        }
        s
    }
}

/// What a `(net ordinal "name" ...)` board record names, if anything.
pub open spec fn spec_net_from(m: NodeModel) -> Option<PcbNetView> {
    match m {
        NodeModel::List(es) => {
            if es.len() >= 3 && es[0] == NodeModel::Symbol("net"@) {
                match spec_u32_of(es[1]) {
                    Some(o) => match es[2] {
                        NodeModel::Value(name) => Some(
                            PcbNetView { ordinal: o as u32, name },
                        ),
                        _ => None,
                    },
                    None => None,
                }
            } else {
                None
            }
        },
        _ => None,
    }
}

impl PcbNet {
    /// Reads a net declaration from its `(net ordinal "name")` list.
    pub fn from_sexpr(e: SExpr) -> (r: Result<PcbNet, ParserError>)
        ensures
            match spec_net_from(e.model()) {
                Some(v) => r matches Ok(n) && n.model() == v,
                None => r is Err,
            },
    {
        let mut list = match e.as_list() {
            Ok(l) => l,
            Err(er) => {
                return Err(er);
            },
        };
        let ghost items = list.0@;
        proof {
            lemma_models_of(items);
        }
        let sym = match list.next_symbol() {
            Ok(s) => s,
            Err(er) => {
                return Err(er);
            },
        };
        if !str_eq(sym.as_str(), "net") {
            return Err(ParserError::Unexpected {
                expected: String::from_str("net"),
                found: sym.0,
            });
        }
        proof {
            assert(list.0@ =~= items.drop_first());
            if items.len() >= 2 {
                assert(items.drop_first()[0] == items[1]);
                assert(items.drop_first().drop_first() =~= items.subrange(2, items.len() as int));
            }
        }
        let ordinal = match list.next_u32() {
            Ok(v) => v,
            Err(er) => {
                return Err(er);
            },
        };
        proof {
            if items.len() >= 3 {
                assert(items.subrange(2, items.len() as int)[0] == items[2]);
            }
        }
        let name = match list.next_string() {
            Ok(v) => v,
            Err(er) => {
                return Err(er);
            },
        };
        Ok(PcbNet { ordinal, name })
    }
}

/// What a layer-kind symbol names, if anything.
pub open spec fn spec_layer_type_from(m: NodeModel) -> Option<PcbLayerType> {
    match m {
        NodeModel::Symbol(kw) => {
            if kw == "user"@ {
                Some(PcbLayerType::User)
            } else if kw == "jumper"@ {
                Some(PcbLayerType::Jumper)
            } else if kw == "mixed"@ {
                Some(PcbLayerType::Mixed)
            } else if kw == "power"@ {
                Some(PcbLayerType::Power)
            } else if kw == "signal"@ {
                Some(PcbLayerType::Signal)
            } else {
                None
            }
        },
        _ => None,
    }
}

/// What one positional layer declaration `(ordinal "name" kind "user"?)`
/// names, if anything. Order is load-bearing here.
pub open spec fn spec_layer_decl_from(m: NodeModel) -> Option<PcbLayerView> {
    match m {
        NodeModel::List(es) => {
            if es.len() >= 3 {
                match (spec_u32_of(es[0]), es[1], spec_layer_type_from(es[2])) {
                    (Some(o), NodeModel::Value(name), Some(t)) => {
                        if es.len() == 3 {
                            Some(
                                PcbLayerView {
                                    ordinal: o as u32,
                                    name,
                                    layer_type: t,
                                    user_name: None,
                                },
                            )
                        } else {
                            match es[3] {
                                NodeModel::Value(un) => Some(
                                    PcbLayerView {
                                        ordinal: o as u32,
                                        name,
                                        layer_type: t,
                                        user_name: Some(un),
                                    },
                                ),
                                _ => None,
                            }
                        }
                    },
                    _ => None,
                }
            } else {
                None
            }
        },
        _ => None,
    }
}

/// Reads one positional layer declaration.
fn layer_decl_from_sexpr(e: SExpr) -> (r: Result<PcbLayer, ParserError>)
    ensures
        match spec_layer_decl_from(e.model()) {
            Some(v) => r matches Ok(l) && l.model() == v,
            None => r is Err,
        },
{
    let mut list = match e.as_list() {
        Ok(l) => l,
        Err(er) => {
            return Err(er);
        },
    };
    let ghost items = list.0@;
    proof {
        lemma_models_of(items);
    }
    let ordinal = match list.next_u32() {
        Ok(v) => v,
        Err(er) => {
            return Err(er);
        },
    };
    proof {
        assert(list.0@ =~= items.drop_first());
        if items.len() >= 2 {
            assert(items.drop_first()[0] == items[1]);
            assert(items.drop_first().drop_first() =~= items.subrange(2, items.len() as int));
        }
    }
    let name = match list.next_string() {
        Ok(v) => v,
        Err(er) => {
            return Err(er);
        },
    };
    proof {
        if items.len() >= 3 {
            assert(items.subrange(2, items.len() as int)[0] == items[2]);
            assert(items.subrange(2, items.len() as int).drop_first() =~= items.subrange(
                3,
                items.len() as int,
            ));
        }
    }
    let kind = match list.next_symbol() {
        Ok(sy) => {
            if str_eq(sy.as_str(), "user") {
                PcbLayerType::User
            } else if str_eq(sy.as_str(), "jumper") {
                PcbLayerType::Jumper
            } else if str_eq(sy.as_str(), "mixed") {
                PcbLayerType::Mixed
            } else if str_eq(sy.as_str(), "power") {
                PcbLayerType::Power
            } else if str_eq(sy.as_str(), "signal") {
                PcbLayerType::Signal
            } else {
                return Err(ParserError::Unexpected {
                    expected: String::from_str("layer kind"),
                    found: sy.0,
                });
            }
        },
        Err(er) => {
            return Err(er);
        },
    };
    proof {
        if items.len() >= 4 {
            assert(items.subrange(3, items.len() as int)[0] == items[3]);
        }
    }
    let user_name = match list.next_maybe_string() {
        Ok(o) => o,
        Err(er) => {
            return Err(er);
        },
    };
    Ok(PcbLayer { ordinal, name, layer_type: kind, user_name })
}

/// The views of a layer-declaration vector, element by element.
pub open spec fn layer_decl_views(ls: Seq<PcbLayer>) -> Seq<PcbLayerView> {
    Seq::new(ls.len(), |i: int| ls[i].model())
}

/// The declarations collected over the children of a `(layers ...)` record.
pub open spec fn spec_layer_decls_fold(acc: Seq<PcbLayerView>, es: Seq<NodeModel>) -> Option<
    Seq<PcbLayerView>,
>
    decreases es.len(),
{
    if es.len() == 0 {
        Some(acc)
    } else {
        match es[0] {
            NodeModel::List(_) => match spec_layer_decl_from(es[0]) {
                Some(v) => spec_layer_decls_fold(acc.push(v), es.drop_first()),
                None => None,
            },
            _ => None,
        }
    }
}

/// What a board's `(layers ...)` record names, if anything.
pub open spec fn spec_layer_decls_from(m: NodeModel) -> Option<Seq<PcbLayerView>> {
    match m {
        NodeModel::List(es) => {
            if es.len() >= 1 && es[0] == NodeModel::Symbol("layers"@) {
                spec_layer_decls_fold(Seq::empty(), es.drop_first())
            } else {
                None
            }
        },
        _ => None,
    }
}

/// Reads a board's ordered layer declarations from its `(layers ...)` record.
pub fn layer_decls_from_sexpr(e: SExpr) -> (r: Result<Vec<PcbLayer>, ParserError>)
    ensures
        match spec_layer_decls_from(e.model()) {
            Some(v) => r matches Ok(ls) && layer_decl_views(ls@) == v,
            None => r is Err,
        },
{
    let mut list = match e.as_list() {
        Ok(l) => l,
        Err(er) => {
            return Err(er);
        },
    };
    let ghost items = list.0@;
    proof {
        lemma_models_of(items);
    }
    let sym = match list.next_symbol() {
        Ok(s) => s,
        Err(er) => {
            return Err(er);
        },
    };
    if !str_eq(sym.as_str(), "layers") {
        return Err(ParserError::Unexpected {
            expected: String::from_str("layers"),
            found: sym.0,
        });
    }
    proof {
        assert(list.0@ =~= items.drop_first());
        assert(models_of(items).drop_first() =~= models_of(items).skip(1));
    }
    let mut out: Vec<PcbLayer> = Vec::new();
    proof {
        assert(layer_decl_views(out@) =~= Seq::<PcbLayerView>::empty());
    }
    loop
        invariant
            models_of(items).len() == items.len(),
            items.len() >= 1,
            1 + out@.len() <= items.len(),
            list.0@ =~= items.skip(1 + out@.len() as int),
            forall|i: int| 0 <= i < items.len() ==> #[trigger] models_of(items)[i]
                == items[i].model(),
            spec_layer_decls_fold(Seq::empty(), models_of(items).drop_first())
                == spec_layer_decls_fold(
                layer_decl_views(out@),
                models_of(items).skip(1 + out@.len() as int),
            ),
            spec_layer_decls_from(e.model()) == spec_layer_decls_fold(
                Seq::empty(),
                models_of(items).drop_first(),
            ),
        ensures
            list.0@.len() == 0,
            spec_layer_decls_from(e.model()) == spec_layer_decls_fold(
                layer_decl_views(out@),
                models_of(items).skip(1 + out@.len() as int),
            ),
            models_of(items).skip(1 + out@.len() as int).len() == 0,
        decreases list.0@.len(),
    {
        let ghost k = 1 + out@.len() as int;
        proof {
            assert(models_of(items).skip(k).len() == list.0@.len());
            if list.0@.len() > 0 {
                assert(items.skip(k)[0] == items[k]);
                assert(models_of(items).skip(k)[0] == models_of(items)[k]);
            }
        }
        let nxt = match list.next_maybe_list() {
            Ok(o) => o,
            Err(er) => {
                return Err(er);
            },
        };
        let decl = match nxt {
            Some(l) => l,
            None => {
                break;
            },
        };
        let layer = match layer_decl_from_sexpr(SExpr::List(decl)) {
            Ok(v) => v,
            Err(er) => {
                return Err(er);
            },
        };
        let ghost before = out@;
        out.push(layer);
        proof {
            assert(items.skip(k).drop_first() =~= items.skip(k + 1));
            assert(models_of(items).skip(k).drop_first() =~= models_of(items).skip(k + 1));
            assert(layer_decl_views(out@) =~= layer_decl_views(before).push(out@[out@.len()
                - 1].model()));
        }
    }
    proof {
        assert(spec_layer_decls_from(e.model()) == Some(layer_decl_views(out@)));
    }
    Ok(out)
}

/// One child's effect on the general settings: a `thickness` field is
/// applied, other tagged lists are tolerated.
pub open spec fn spec_general_step(acc: PcbFileGeneral, m: NodeModel) -> Option<PcbFileGeneral> {
    match m {
        NodeModel::List(es) => {
            if es.len() == 0 {
                None
            } else {
                match es[0] {
                    NodeModel::Symbol(kw) => {
                        if kw == "thickness"@ {
                            match spec_field_scalar(es) {
                                Some(units) => Some(
                                    PcbFileGeneral { thickness: Scalar { units: units as i64 } },
                                ),
                                None => None,
                            }
                        } else {
                            Some(acc)
                        }
                    },
                    _ => None,
                }
            }
        },
        _ => None,
    }
}

/// What a `(general ...)` record names, if anything.
pub open spec fn spec_general_from(m: NodeModel) -> Option<PcbFileGeneral> {
    match m {
        NodeModel::List(es) => {
            if es.len() >= 1 && es[0] == NodeModel::Symbol("general"@) {
                spec_fold(
                    PcbFileGeneral { thickness: Scalar { units: 0 } },
                    es.drop_first(),
                    |a: PcbFileGeneral, c: NodeModel| spec_general_step(a, c),
                )
            } else {
                None
            }
        },
        _ => None,
    }
}

impl PcbFileGeneral {
    /// Reads the general settings from their `(general ...)` record.
    pub fn from_sexpr(e: SExpr) -> (r: Result<PcbFileGeneral, ParserError>)
        ensures
            match spec_general_from(e.model()) {
                Some(v) => r matches Ok(g) && g == v,
                None => r is Err,
            },
    {
        let ghost stepf = |a: PcbFileGeneral, c: NodeModel| spec_general_step(a, c);
        let mut list = match e.as_list() {
            Ok(l) => l,
            Err(er) => {
                return Err(er);
            },
        };
        let ghost items = list.0@;
        proof {
            lemma_models_of(items);
        }
        let sym = match list.next_symbol() {
            Ok(s) => s,
            Err(er) => {
                return Err(er);
            },
        };
        if !str_eq(sym.as_str(), "general") {
            return Err(ParserError::Unexpected {
                expected: String::from_str("general"),
                found: sym.0,
            });
        }
        proof {
            assert(list.0@ =~= items.drop_first());
            assert(models_of(items).drop_first() =~= models_of(items).skip(1));
        }
        let mut g = PcbFileGeneral { thickness: Scalar { units: 0 } };
        let ghost mut k: int = 1;
        loop
            invariant
                models_of(items).len() == items.len(),
                items.len() >= 1,
                1 <= k <= items.len(),
                list.0@ =~= items.skip(k),
                forall|i: int| 0 <= i < items.len() ==> #[trigger] models_of(items)[i]
                    == items[i].model(),
                spec_fold(
                    PcbFileGeneral { thickness: Scalar { units: 0 } },
                    models_of(items).drop_first(),
                    stepf,
                ) == spec_fold(g, models_of(items).skip(k), stepf),
                spec_general_from(e.model()) == spec_fold(
                    PcbFileGeneral { thickness: Scalar { units: 0 } },
                    models_of(items).drop_first(),
                    stepf,
                ),
                stepf == (|a: PcbFileGeneral, c: NodeModel| spec_general_step(a, c)),
            ensures
                list.0@.len() == 0,
                spec_general_from(e.model()) == spec_fold(g, models_of(items).skip(k), stepf),
                models_of(items).skip(k).len() == 0,
            decreases list.0@.len(),
        {
            proof {
                assert(models_of(items).skip(k).len() == list.0@.len());
                if list.0@.len() > 0 {
                    assert(items.skip(k)[0] == items[k]);
                    assert(models_of(items).skip(k)[0] == models_of(items)[k]);
                }
            }
            let nxt = match list.next_maybe_list() {
                Ok(o) => o,
                Err(er) => {
                    return Err(er);
                },
            };
            let attr = match nxt {
                Some(l) => l,
                None => {
                    break;
                },
            };
            proof {
                lemma_models_of(attr.0@);
            }
            let is_thickness = match attr.peek_name() {
                Ok(name) => str_eq(name, "thickness"),
                Err(er) => {
                    return Err(er);
                },
            };
            if is_thickness {
                let v = match field_scalar(attr) {
                    Ok(v) => v,
                    Err(er) => {
                        return Err(er);
                    },
                };
                g.thickness = v;
            }
            proof {
                assert(items.skip(k).drop_first() =~= items.skip(k + 1));
                assert(models_of(items).skip(k).drop_first() =~= models_of(items).skip(k + 1));
                k = k + 1;
            }
        }
        Ok(g)
    }
}

/// The views of a net vector, element by element.
pub open spec fn net_views(ns: Seq<PcbNet>) -> Seq<PcbNetView> {
    Seq::new(ns.len(), |i: int| ns[i].model())
}

/// The views of a board-property vector, element by element.
pub open spec fn pcb_property_views(ps: Seq<PcbProperty>) -> Seq<
    crate::common::footprint::PropertyView,
> {
    Seq::new(
        ps.len(),
        |i: int| crate::common::footprint::PropertyView { key: ps[i].key@, value: ps[i].value@ },
    )
}

/// The views of a footprint vector, element by element.
pub open spec fn footprint_views(fs: Seq<Footprint>) -> Seq<FootprintView> {
    Seq::new(fs.len(), |i: int| fs[i].model())
}

/// A parsed board file.
#[derive(Clone, Debug)]
pub struct PcbFile {
    /// The format version, as the decimal text of its number.
    pub version: String,
    /// The program that wrote the file.
    pub generator: String,
    /// The version of the program that wrote the file.
    pub generator_version: String,
    /// The paper size of the board drawing.
    pub paper: String,
    /// General board settings.
    pub general: PcbFileGeneral,
    /// The ordered layer declarations; ordinals give the stacking order.
    pub layers: Vec<PcbLayer>,
    /// Free-form board properties.
    pub properties: Vec<PcbProperty>,
    /// The declared nets.
    pub nets: Vec<PcbNet>,
    /// The placed footprints.
    pub footprints: Vec<Footprint>,
    /// Board-level graphics.
    pub graphics: Vec<Graphic>,
}

/// The mathematical value of a `PcbFile`.
pub struct PcbFileView {
    pub version: Seq<char>,
    pub generator: Seq<char>,
    pub generator_version: Seq<char>,
    pub paper: Seq<char>,
    pub general: PcbFileGeneral,
    pub layers: Seq<PcbLayerView>,
    pub properties: Seq<crate::common::footprint::PropertyView>,
    pub nets: Seq<PcbNetView>,
    pub footprints: Seq<FootprintView>,
    pub graphics: Seq<GraphicView>,
}

impl PcbFile {
    /// The ghost value of this board.
    pub open spec fn model(self) -> PcbFileView {
        PcbFileView {
            version: self.version@,
            generator: self.generator@,
            generator_version: self.generator_version@,
            paper: self.paper@,
            general: self.general,
            layers: layer_decl_views(self.layers@),
            properties: pcb_property_views(self.properties@),
            nets: net_views(self.nets@),
            footprints: footprint_views(self.footprints@),
            graphics: crate::common::footprint::graphic_views(self.graphics@),
        }
    }

    /// The all-defaults board value.
    pub open spec fn spec_default() -> PcbFileView {
        PcbFileView {
            version: Seq::empty(),
            generator: Seq::empty(),
            generator_version: Seq::empty(),
            paper: Seq::empty(),
            general: PcbFileGeneral { thickness: Scalar { units: 0 } },
            layers: Seq::empty(),
            properties: Seq::empty(),
            nets: Seq::empty(),
            footprints: Seq::empty(),
            graphics: Seq::empty(),
        }
    }
}

/// One record's effect on a board being read: the header fields, settings,
/// layer and net declarations, footprints and board graphics are applied;
/// records with unknown tags are tolerated.
pub open spec fn spec_pcb_step(acc: PcbFileView, m: NodeModel) -> Option<PcbFileView> {
    match m {
        NodeModel::List(es) => {
            if es.len() == 0 {
                None
            } else {
                match es[0] {
                    NodeModel::Symbol(tag) => {
                        if tag == "version"@ {
                            match spec_field_scalar(es) {
                                Some(units) => Some(
                                    PcbFileView {
                                        version: spec_u64_str(
                                            crate::scalar::clamp_u64(
                                                crate::scalar::trunc_mm(units),
                                            ) as nat,
                                        ),
                                        ..acc
                                    },
                                ),
                                None => None,
                            }
                        } else if tag == "generator"@ {
                            match spec_field_string(es) {
                                Some(v) => Some(PcbFileView { generator: v, ..acc }),
                                None => None,
                            }
                        } else if tag == "generator_version"@ {
                            match spec_field_string(es) {
                                Some(v) => Some(PcbFileView { generator_version: v, ..acc }),
                                None => None,
                            }
                        } else if tag == "paper"@ {
                            match spec_field_string(es) {
                                Some(v) => Some(PcbFileView { paper: v, ..acc }),
                                None => None,
                            }
                        } else if tag == "general"@ {
                            match spec_general_from(m) {
                                Some(v) => Some(PcbFileView { general: v, ..acc }),
                                None => None,
                            }
                        } else if tag == "layers"@ {
                            match spec_layer_decls_from(m) {
                                Some(v) => Some(PcbFileView { layers: v, ..acc }),
                                None => None,
                            }
                        } else if tag == "net"@ {
                            match spec_net_from(m) {
                                Some(v) => Some(PcbFileView { nets: acc.nets.push(v), ..acc }),
                                None => None,
                            }
                        } else if tag == "footprint"@ {
                            match spec_footprint_from(m) {
                                Some(v) => Some(
                                    PcbFileView { footprints: acc.footprints.push(v), ..acc },
                                ),
                                None => None,
                            }
                        } else if spec_starts_with(tag, "gr_"@) {
                            match spec_graphic_from(m) {
                                Some(v) => Some(
                                    PcbFileView { graphics: acc.graphics.push(v), ..acc },
                                ),
                                None => None,
                            }
                        } else {
                            Some(acc)
                        }
                    },
                    _ => None,
                }
            }
        },
        _ => None,
    }
}

/// What a `(kicad_pcb ...)` list names, if anything.
pub open spec fn spec_pcb_from(m: NodeModel) -> Option<PcbFileView> {
    match m {
        NodeModel::List(es) => {
            if es.len() >= 1 && es[0] == NodeModel::Symbol("kicad_pcb"@) {
                spec_fold(PcbFile::spec_default(), es.drop_first(), |a: PcbFileView, c: NodeModel| spec_pcb_step(a, c))
            } else {
                None
            }
        },
        _ => None,
    }
}

/// What a whole board text names, if anything: a top-level `kicad_pcb`
/// list, read into a board value.
pub open spec fn spec_parse_board(s: Seq<char>) -> Option<PcbFileView> {
    match spec_parse_root(s) {
        Some(elems) => spec_pcb_from(NodeModel::List(elems)),
        None => None,
    }
}

impl PcbFile {
    /// Reads a board from its `(kicad_pcb ...)` list. Records with unknown
    /// tags are tolerated and skipped.
    pub fn from_sexpr(e: SExpr) -> (r: Result<PcbFile, ParserError>)
        ensures
            match spec_pcb_from(e.model()) {
                Some(v) => r matches Ok(b) && b.model() == v,
                None => r is Err,
            },
    {
        let ghost stepf = |a: PcbFileView, c: NodeModel| spec_pcb_step(a, c);
        let mut list = match e.as_list() {
            Ok(l) => l,
            Err(er) => {
                return Err(er);
            },
        };
        let ghost items = list.0@;
        proof {
            lemma_models_of(items);
        }
        let sym = match list.next_symbol() {
            Ok(s) => s,
            Err(er) => {
                return Err(er);
            },
        };
        if !str_eq(sym.as_str(), "kicad_pcb") {
            return Err(ParserError::Unexpected {
                expected: String::from_str("kicad_pcb"),
                found: sym.0,
            });
        }
        proof {
            assert(list.0@ =~= items.drop_first());
            assert(models_of(items).drop_first() =~= models_of(items).skip(1));
        }
        let mut b = PcbFile {
            version: String::new(),
            generator: String::new(),
            generator_version: String::new(),
            paper: String::new(),
            general: PcbFileGeneral { thickness: Scalar { units: 0 } },
            layers: Vec::new(),
            properties: Vec::new(),
            nets: Vec::new(),
            footprints: Vec::new(),
            graphics: Vec::new(),
        };
        proof {
            assert(b.model().layers =~= PcbFile::spec_default().layers);
            assert(b.model().properties =~= PcbFile::spec_default().properties);
            assert(b.model().nets =~= PcbFile::spec_default().nets);
            assert(b.model().footprints =~= PcbFile::spec_default().footprints);
            assert(b.model().graphics =~= PcbFile::spec_default().graphics);
            assert(b.model() == PcbFile::spec_default());
        }
        let ghost mut k: int = 1;
        loop
            invariant
                models_of(items).len() == items.len(),
                items.len() >= 1,
                1 <= k <= items.len(),
                list.0@ =~= items.skip(k),
                forall|i: int| 0 <= i < items.len() ==> #[trigger] models_of(items)[i]
                    == items[i].model(),
                spec_fold(PcbFile::spec_default(), models_of(items).drop_first(), stepf)
                    == spec_fold(b.model(), models_of(items).skip(k), stepf),
                spec_pcb_from(e.model()) == spec_fold(
                    PcbFile::spec_default(),
                    models_of(items).drop_first(),
                    stepf,
                ),
                stepf == (|a: PcbFileView, c: NodeModel| spec_pcb_step(a, c)),
            ensures
                list.0@.len() == 0,
                spec_pcb_from(e.model()) == spec_fold(
                    b.model(),
                    models_of(items).skip(k),
                    stepf,
                ),
                models_of(items).skip(k).len() == 0,
            decreases list.0@.len(),
        {
            proof {
                assert(models_of(items).skip(k).len() == list.0@.len());
                if list.0@.len() > 0 {
                    assert(items.skip(k)[0] == items[k]);
                    assert(models_of(items).skip(k)[0] == models_of(items)[k]);
                }
            }
            let nxt = match list.next_maybe_list() {
                Ok(o) => o,
                Err(er) => {
                    return Err(er);
                },
            };
            let attr = match nxt {
                Some(l) => l,
                None => {
                    break;
                },
            };
            proof {
                lemma_models_of(attr.0@);
            }
            let code: u32 = match attr.peek_name() {
                Ok(name) => {
                    if str_eq(name, "version") {
                        1
                    } else if str_eq(name, "generator") {
                        2
                    } else if str_eq(name, "generator_version") {
                        3
                    } else if str_eq(name, "paper") {
                        4
                    } else if str_eq(name, "general") {
                        5
                    } else if str_eq(name, "layers") {
                        6
                    } else if str_eq(name, "net") {
                        7
                    } else if str_eq(name, "footprint") {
                        8
                    } else if str_starts_with(name, "gr_") {
                        9
                    } else {
                        0
                    }
                },
                Err(er) => {
                    return Err(er);
                },
            };
            if code == 1 {
                let v = match field_scalar(attr) {
                    Ok(v) => v,
                    Err(er) => {
                        return Err(er);
                    },
                };
                b.version = u64_to_string(v.to_u64());
            } else if code == 2 {
                let v = match field_string(attr) {
                    Ok(v) => v,
                    Err(er) => {
                        return Err(er);
                    },
                };
                b.generator = v;
            } else if code == 3 {
                let v = match field_string(attr) {
                    Ok(v) => v,
                    Err(er) => {
                        return Err(er);
                    },
                };
                b.generator_version = v;
            } else if code == 4 {
                let v = match field_string(attr) {
                    Ok(v) => v,
                    Err(er) => {
                        return Err(er);
                    },
                };
                b.paper = v;
            } else if code == 5 {
                let v = match PcbFileGeneral::from_sexpr(SExpr::List(attr)) {
                    Ok(v) => v,
                    Err(er) => {
                        return Err(er);
                    },
                };
                b.general = v;
            } else if code == 6 {
                let v = match layer_decls_from_sexpr(SExpr::List(attr)) {
                    Ok(v) => v,
                    Err(er) => {
                        return Err(er);
                    },
                };
                b.layers = v;
            } else if code == 7 {
                let v = match PcbNet::from_sexpr(SExpr::List(attr)) {
                    Ok(v) => v,
                    Err(er) => {
                        return Err(er);
                    },
                };
                let ghost before = b.nets@;
                b.nets.push(v);
                proof {
                    assert(net_views(b.nets@) =~= net_views(before).push(b.nets@[b.nets@.len()
                        - 1].model()));
                }
            } else if code == 8 {
                let v = match Footprint::from_sexpr(SExpr::List(attr)) {
                    Ok(v) => v,
                    Err(er) => {
                        return Err(er);
                    },
                };
                let ghost before = b.footprints@;
                b.footprints.push(v);
                proof {
                    assert(footprint_views(b.footprints@) =~= footprint_views(before).push(
                        b.footprints@[b.footprints@.len() - 1].model(),
                    ));
                }
            } else if code == 9 {
                let v = match Graphic::from_sexpr(SExpr::List(attr)) {
                    Ok(v) => v,
                    Err(er) => {
                        return Err(er);
                    },
                };
                let ghost before = b.graphics@;
                b.graphics.push(v);
                proof {
                    assert(crate::common::footprint::graphic_views(b.graphics@)
                        =~= crate::common::footprint::graphic_views(before).push(
                        b.graphics@[b.graphics@.len() - 1].model(),
                    ));
                }
            }
            proof {
                assert(items.skip(k).drop_first() =~= items.skip(k + 1));
                assert(models_of(items).skip(k).drop_first() =~= models_of(items).skip(k + 1));
                k = k + 1;
            }
        }
        Ok(b)
    }
}

/// Parses the full text of a board file into its typed model: the primary
/// entry point. Succeeds exactly on texts whose top-level expression is a
/// well-formed `kicad_pcb` list; a lexical failure is wrapped as a parse
/// error, never a panic.
pub fn parse_pcb_file(input: &str) -> (r: Result<PcbFile, ParserError>)
    ensures
        match spec_parse_board(input@) {
            Some(v) => r matches Ok(b) && b.model() == v,
            None => r is Err,
        },
{
    let root = match crate::sexpr::parse_sexpr(input) {
        Ok(l) => l,
        Err(lex) => {
            return Err(ParserError::SExpressionError(lex));
        },
    };
    PcbFile::from_sexpr(SExpr::List(root))
}

/// The box spanning a run of board graphics, keeping only those on the
/// board-outline layer `Edge.Cuts`.
pub open spec fn spec_outline_envelope(gs: Seq<Graphic>) -> BoundingBox
    decreases gs.len(),
{
    if gs.len() == 0 {
        spec_empty_box()
    } else {
        let rest = spec_outline_envelope(gs.drop_last());
        if gs.last().spec_layer() == "Edge.Cuts"@ {
            spec_envelop(rest, gs.last().spec_bounding_box())
        } else {
            rest
        }
    }
}

impl GetBoundingBox for PcbFile {
    /// The union of the boxes of the board graphics on the `Edge.Cuts`
    /// layer: the physical board outline. Graphics on other layers are
    /// left out of this aggregate.
    open spec fn spec_bounding_box(&self) -> BoundingBox {
        spec_outline_envelope(self.graphics@)
    }

    fn bounding_box(&self) -> (r: BoundingBox)
        ensures
            r == self.spec_bounding_box(),
    {
        let mut b = BoundingBox::empty();
        let n = self.graphics.len();
        let mut i: usize = 0;
        while i < n
            invariant
                n == self.graphics@.len(),
                i <= n,
                b == spec_outline_envelope(self.graphics@.take(i as int)),
            decreases n - i,
        {
            let gr = &self.graphics[i];
            if str_eq(gr.layer().as_str(), "Edge.Cuts") {
                let gb = gr.bounding_box();
                b.envelop(&gb);
            }
            i = i + 1;
            proof {
                assert(self.graphics@.take(i as int).drop_last() =~= self.graphics@.take(
                    i as int - 1,
                ));
                assert(self.graphics@.take(i as int).last() == self.graphics@[i as int - 1]);
                reveal_strlit("Edge.Cuts");
            }
        }
        proof {
            assert(self.graphics@.take(n as int) =~= self.graphics@);
        }
        b
    }
}

} // verus!
