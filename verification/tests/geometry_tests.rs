//! Tests of bounding boxes: the envelop algebra, per-shape boxes, and the
//! fabrication-layer exclusion in footprint envelopes.

use kicad_parser::common::{
    BoundingBox, Footprint, FootprintCircle, FootprintLine, GetBoundingBox, Graphic, Layer,
    Point, PointList, Position, Stroke, StrokeType, Uuid,
};
use kicad_parser::scalar::Scalar;

fn mm(v: i64) -> Scalar {
    Scalar {
        units: v * 1_000_000,
    }
}

fn boxed(min_x: i64, min_y: i64, max_x: i64, max_y: i64) -> BoundingBox {
    BoundingBox {
        min_x: mm(min_x),
        min_y: mm(min_y),
        max_x: mm(max_x),
        max_y: mm(max_y),
    }
}

fn line_on(layer: &str, x1: i64, y1: i64, x2: i64, y2: i64) -> FootprintLine {
    FootprintLine {
        start: Point { x: mm(x1), y: mm(y1) },
        end: Point { x: mm(x2), y: mm(y2) },
        layer: Layer(layer.to_string()),
        stroke: Stroke {
            width: mm(0),
            line_type: StrokeType::Default,
            color: None,
        },
        uuid: Uuid(String::new()),
        width: mm(0),
        locked: false,
    }
}

#[test]
fn envelop_is_idempotent_on_the_accumulator() {
    let a = boxed(0, 0, 2, 2);
    let b = boxed(-1, 1, 3, 5);
    let mut once = a;
    once.envelop(&b);
    let mut twice = a;
    twice.envelop(&b);
    twice.envelop(&b);
    assert_eq!(once, twice);
}

#[test]
fn envelop_is_commutative_in_effect() {
    let a = boxed(0, 0, 2, 2);
    let b = boxed(-1, 1, 3, 5);
    let mut ab = BoundingBox::empty();
    ab.envelop(&a);
    ab.envelop(&b);
    let mut ba = BoundingBox::empty();
    ba.envelop(&b);
    ba.envelop(&a);
    assert_eq!(ab, ba);
}

#[test]
fn envelop_into_the_identity_yields_the_box() {
    let b = boxed(-4, 2, 7, 9);
    let mut acc = BoundingBox::empty();
    acc.envelop(&b);
    assert_eq!(acc, b);
}

#[test]
fn circle_box_spans_the_true_radius() {
    let circle = FootprintCircle {
        center: Point { x: mm(0), y: mm(0) },
        end: Point { x: mm(3), y: mm(0) },
        layer: Layer("F.SilkS".to_string()),
        stroke: Stroke {
            width: mm(0),
            line_type: StrokeType::Default,
            color: None,
        },
        uuid: Uuid(String::new()),
        fill: false,
        width: mm(0),
        locked: false,
    };
    let b = circle.bounding_box();
    assert_eq!(b, boxed(-3, -3, 3, 3));
}

#[test]
fn circle_box_uses_euclidean_distance() {
    let circle = FootprintCircle {
        center: Point { x: mm(0), y: mm(0) },
        end: Point { x: mm(3), y: mm(4) },
        layer: Layer("F.SilkS".to_string()),
        stroke: Stroke {
            width: mm(0),
            line_type: StrokeType::Default,
            color: None,
        },
        uuid: Uuid(String::new()),
        fill: false,
        width: mm(0),
        locked: false,
    };
    let b = circle.bounding_box();
    assert_eq!(b, boxed(-5, -5, 5, 5));
}

#[test]
fn line_box_takes_minima_and_maxima_per_axis() {
    let line = line_on("F.SilkS", 4, -1, -2, 3);
    assert_eq!(line.bounding_box(), boxed(-2, -1, 4, 3));
}

#[test]
fn footprint_excludes_fabrication_layer_graphics() {
    let fp = Footprint {
        library_link: None,
        locked: false,
        placed: false,
        layer: Layer("F.Cu".to_string()),
        tedit: None,
        uuid: None,
        position: None,
        tags: None,
        description: None,
        properties: Vec::new(),
        path: None,
        autoplace_cost90: None,
        autoplace_cost180: None,
        solder_mask_margin: None,
        solder_paste_margin: None,
        solder_paste_ratio: None,
        clearance: None,
        zone_connect: None,
        thermal_width: None,
        thermal_gap: None,
        attributes: None,
        private_layers: Vec::new(),
        net_tie_pad_groups: Vec::new(),
        graphics: vec![Graphic::Line(line_on("F.Fab", 0, 0, 10, 10))],
        pads: Vec::new(),
        zones: Vec::new(),
        groups: Vec::new(),
        models: Vec::new(),
    };
    assert_eq!(fp.bounding_box(), BoundingBox::empty());
}

#[test]
fn footprint_box_is_translated_by_its_position() {
    let fp = Footprint {
        library_link: None,
        locked: false,
        placed: false,
        layer: Layer("F.Cu".to_string()),
        tedit: None,
        uuid: None,
        position: Some(Position {
            x: mm(10),
            y: mm(20),
            angle: None,
        }),
        tags: None,
        description: None,
        properties: Vec::new(),
        path: None,
        autoplace_cost90: None,
        autoplace_cost180: None,
        solder_mask_margin: None,
        solder_paste_margin: None,
        solder_paste_ratio: None,
        clearance: None,
        zone_connect: None,
        thermal_width: None,
        thermal_gap: None,
        attributes: None,
        private_layers: Vec::new(),
        net_tie_pad_groups: Vec::new(),
        graphics: vec![Graphic::Line(line_on("F.SilkS", 0, 0, 2, 3))],
        pads: Vec::new(),
        zones: Vec::new(),
        groups: Vec::new(),
        models: Vec::new(),
    };
    assert_eq!(fp.bounding_box(), boxed(10, 20, 12, 23));
}

#[test]
fn polygon_box_spans_all_points() {
    let poly = kicad_parser::common::FootprintPolygon {
        points: PointList(vec![
            Point { x: mm(1), y: mm(5) },
            Point { x: mm(-3), y: mm(2) },
            Point { x: mm(4), y: mm(-1) },
        ]),
        layer: Layer("F.SilkS".to_string()),
        stroke: Stroke {
            width: mm(0),
            line_type: StrokeType::Default,
            color: None,
        },
        uuid: Uuid(String::new()),
        width: mm(0),
        fill: false,
        locked: false,
    };
    assert_eq!(poly.bounding_box(), boxed(-3, -1, 4, 5));
}

#[test]
fn box_width_and_height_span_the_corners() {
    let b = boxed(-2, 1, 5, 4);
    assert_eq!(b.width(), mm(7));
    assert_eq!(b.height(), mm(3));
    assert_eq!(b.x(), mm(-2));
    assert_eq!(b.y(), mm(1));
}

#[test]
fn move_by_translates_both_corners() {
    let mut b = boxed(0, 0, 2, 2);
    b.move_by(mm(5), mm(-1));
    assert_eq!(b, boxed(5, -1, 7, 1));
}
