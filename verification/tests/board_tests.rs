//! Tests of the typed layer: a minimal board round trip, tolerance of
//! unknown fields, and the per-entity readers.

use kicad_parser::common::{
    FootprintAttributes, FootprintType, GetBoundingBox, Graphic, PadShape, PadType,
};
use kicad_parser::pcb_file::{parse_pcb_file, PcbLayerType};
use kicad_parser::scalar::Scalar;

fn mm(v: i64) -> Scalar {
    Scalar {
        units: v * 1_000_000,
    }
}

const MINIMAL_BOARD: &str = "(kicad_pcb
  (version 20240108)
  (generator \"pcbnew\")
  (general (thickness 1.6))
  (layers
    (0 \"F.Cu\" signal)
  )
  (net 0 \"GND\")
  (footprint \"Resistor:R0603\"
    (layer \"F.Cu\")
    (at 10 20)
    (fp_line (start 1 2) (end 3 4) (layer \"F.SilkS\"))
  )
)";

#[test]
fn minimal_board_round_trip() {
    let pcb = parse_pcb_file(MINIMAL_BOARD).unwrap();
    assert_eq!(pcb.version, "20240108".to_string());
    assert_eq!(pcb.generator, "pcbnew".to_string());
    assert_eq!(pcb.general.thickness, Scalar { units: 1_600_000 });
    assert_eq!(pcb.nets.len(), 1);
    assert_eq!(pcb.nets[0].ordinal, 0);
    assert_eq!(pcb.nets[0].name, "GND".to_string());
    assert_eq!(pcb.layers.len(), 1);
    assert_eq!(pcb.layers[0].ordinal, 0);
    assert_eq!(pcb.layers[0].name, "F.Cu".to_string());
    assert!(matches!(pcb.layers[0].layer_type, PcbLayerType::Signal));
    assert_eq!(pcb.footprints.len(), 1);
    let fp = &pcb.footprints[0];
    assert_eq!(fp.library_link, Some("Resistor:R0603".to_string()));
    assert_eq!(fp.layer.0, "F.Cu".to_string());
    let pos = fp.position.unwrap();
    assert_eq!(pos.x, mm(10));
    assert_eq!(pos.y, mm(20));
    assert_eq!(fp.graphics.len(), 1);
    match &fp.graphics[0] {
        Graphic::Line(line) => {
            assert_eq!(line.start.x, mm(1));
            assert_eq!(line.start.y, mm(2));
            assert_eq!(line.end.x, mm(3));
            assert_eq!(line.end.y, mm(4));
            assert_eq!(line.layer.0, "F.SilkS".to_string());
        }
        other => panic!("expected a line graphic, found {:?}", other),
    }
}

#[test]
fn unknown_footprint_field_is_tolerated() {
    let text = "(kicad_pcb
      (footprint \"X:Y\"
        (layer \"F.Cu\")
        (future_field 1 2)
      )
    )";
    let pcb = parse_pcb_file(text).unwrap();
    assert_eq!(pcb.footprints.len(), 1);
    assert_eq!(pcb.footprints[0].layer.0, "F.Cu".to_string());
}

#[test]
fn unknown_board_record_is_tolerated() {
    let text = "(kicad_pcb (setup (pad_to_mask_clearance 0)) (net 1 \"VCC\"))";
    let pcb = parse_pcb_file(text).unwrap();
    assert_eq!(pcb.nets.len(), 1);
    assert_eq!(pcb.nets[0].ordinal, 1);
}

#[test]
fn board_with_wrong_root_tag_is_an_error() {
    assert!(parse_pcb_file("(kicad_sch (version 1))").is_err());
}

#[test]
fn malformed_board_text_is_an_error_not_a_panic() {
    assert!(parse_pcb_file("(kicad_pcb (net 0 \"GND\")").is_err());
    assert!(parse_pcb_file("\"unterminated").is_err());
    assert!(parse_pcb_file(")").is_err());
    assert!(parse_pcb_file("").is_err());
}

#[test]
fn board_outline_box_keeps_only_edge_cuts() {
    let text = "(kicad_pcb
      (gr_line (start 0 0) (end 100 80) (layer \"Edge.Cuts\"))
      (gr_line (start -50 -50) (end 500 500) (layer \"F.SilkS\"))
    )";
    let pcb = parse_pcb_file(text).unwrap();
    let b = pcb.bounding_box();
    assert_eq!(b.min_x, mm(0));
    assert_eq!(b.min_y, mm(0));
    assert_eq!(b.max_x, mm(100));
    assert_eq!(b.max_y, mm(80));
}

#[test]
fn footprint_on_fab_layer_yields_degenerate_envelope() {
    let text = "(kicad_pcb
      (footprint \"X:Y\"
        (fp_line (start 0 0) (end 10 10) (layer \"F.Fab\"))
      )
    )";
    let pcb = parse_pcb_file(text).unwrap();
    let b = pcb.footprints[0].bounding_box();
    assert_eq!(b, kicad_parser::common::BoundingBox::empty());
}

#[test]
fn pad_fields_are_populated() {
    let text = "(kicad_pcb
      (footprint \"X:Y\"
        (pad \"1\" smd roundrect (at 0.7625 0) (size 1.6 1.4)
          (layers \"F.Cu\" \"F.Paste\")
          (net 23 \"VDDA\") (pintype \"passive\"))
      )
    )";
    let pcb = parse_pcb_file(text).unwrap();
    let pad = &pcb.footprints[0].pads[0];
    assert_eq!(pad.number, "1".to_string());
    assert!(matches!(pad.pad_type, PadType::Smd));
    assert!(matches!(pad.shape, PadShape::RoundedRectangle));
    assert_eq!(pad.position.x, Scalar { units: 762_500 });
    assert_eq!(pad.size.width, Scalar { units: 1_600_000 });
    assert_eq!(pad.size.height, Scalar { units: 1_400_000 });
    assert_eq!(pad.layers.len(), 2);
    assert_eq!(pad.layers[0].0, "F.Cu".to_string());
    assert_eq!(pad.layers[1].0, "F.Paste".to_string());
    let net = pad.net.as_ref().unwrap();
    assert_eq!(net.ordinal, 23);
    assert_eq!(net.name, "VDDA".to_string());
    assert_eq!(pad.pin_type, Some("passive".to_string()));
}

#[test]
fn footprint_attributes_and_properties() {
    let text = "(kicad_pcb
      (footprint \"X:Y\"
        (attr smd exclude_from_bom dnp unknown_flag)
        (property \"Reference\" \"R1\")
        (property \"Reference\" \"R2\")
        (property \"Value\" \"10k\")
      )
    )";
    let pcb = parse_pcb_file(text).unwrap();
    let fp = &pcb.footprints[0];
    let attrs = fp.attributes.unwrap();
    assert_eq!(
        attrs,
        FootprintAttributes {
            footprint_type: FootprintType::Smd,
            board_only: false,
            exclude_from_pos_files: false,
            exclude_from_bom: true,
            do_not_populate: true,
        }
    );
    assert_eq!(fp.properties.len(), 2);
    assert_eq!(fp.properties[0].key, "Reference".to_string());
    assert_eq!(fp.properties[0].value, "R2".to_string());
    assert_eq!(fp.properties[1].key, "Value".to_string());
    assert_eq!(fp.properties[1].value, "10k".to_string());
}

#[test]
fn stroke_fields_are_populated() {
    let text = "(kicad_pcb
      (gr_rect (start 0 0) (end 1 1) (layer \"F.SilkS\")
        (stroke (width 0.12) (type dash) (color 1 2 3 4))
        (fill yes))
    )";
    let pcb = parse_pcb_file(text).unwrap();
    match &pcb.graphics[0] {
        Graphic::Rectangle(rect) => {
            assert_eq!(rect.stroke.width, Scalar { units: 120_000 });
            assert!(matches!(
                rect.stroke.line_type,
                kicad_parser::common::StrokeType::Dash
            ));
            assert_eq!(
                rect.stroke.color,
                Some(kicad_parser::common::RgbaColor(1, 2, 3, 4))
            );
            assert!(rect.fill);
        }
        other => panic!("expected a rectangle, found {:?}", other),
    }
}

#[test]
fn text_and_uuid_fields_are_populated() {
    let text = "(kicad_pcb
      (gr_text \"silk label\" reference hide (at 5 6 90)
        (layer \"F.SilkS\") (uuid \"deadbeef\"))
    )";
    let pcb = parse_pcb_file(text).unwrap();
    match &pcb.graphics[0] {
        Graphic::Text(t) => {
            assert_eq!(t.text, "silk label".to_string());
            assert!(t.hide);
            assert_eq!(t.position.x, mm(5));
            assert_eq!(t.position.y, mm(6));
            assert_eq!(t.position.angle, Some(mm(90)));
            assert_eq!(t.uuid.0, "deadbeef".to_string());
        }
        other => panic!("expected a text, found {:?}", other),
    }
}

#[test]
fn hex_ordinal_is_accepted_for_nets() {
    let text = "(kicad_pcb (net 0x10 \"bus\"))";
    let pcb = parse_pcb_file(text).unwrap();
    assert_eq!(pcb.nets[0].ordinal, 16);
}

#[test]
fn empty_uuid_is_rejected() {
    let text = "(kicad_pcb (footprint \"X\" (uuid \"\")))";
    assert!(parse_pcb_file(text).is_err());
}

#[test]
fn scalar_conversions_truncate_toward_zero() {
    assert_eq!(Scalar { units: 3_700_000 }.to_u32(), 3);
    assert_eq!(Scalar { units: -3_700_000 }.to_i32(), -3);
    assert_eq!(Scalar { units: -1 }.to_u8(), 0);
    assert_eq!(Scalar { units: 255_000_001 }.to_u8(), 255);
}

#[test]
fn polygon_and_curve_graphics_are_parsed() {
    let text = "(kicad_pcb
      (footprint \"X:Y\"
        (fp_poly (pts (xy 0 0) (xy 1 0) (xy 1 1)) (layer \"F.SilkS\") (fill yes))
        (fp_curve (pts (xy 0 0) (xy 1 2) (xy 2 2) (xy 3 0)) (layer \"F.SilkS\"))
      )
    )";
    let pcb = parse_pcb_file(text).unwrap();
    let fp = &pcb.footprints[0];
    match &fp.graphics[0] {
        Graphic::Polygon(p) => {
            assert_eq!(p.points.0.len(), 3);
            assert_eq!(p.points.0[2].x, mm(1));
            assert_eq!(p.points.0[2].y, mm(1));
            assert!(p.fill);
        }
        other => panic!("expected a polygon, found {:?}", other),
    }
    match &fp.graphics[1] {
        Graphic::Curve(c) => {
            assert_eq!(c.points.0.len(), 4);
            assert_eq!(c.points.0[3].x, mm(3));
        }
        other => panic!("expected a curve, found {:?}", other),
    }
}

#[test]
fn text_box_corners_and_angle_are_parsed() {
    let text = "(kicad_pcb
      (gr_text_box \"note\" (start 1 2) (end 5 6) (angle 90) (layer \"Cmts.User\"))
    )";
    let pcb = parse_pcb_file(text).unwrap();
    match &pcb.graphics[0] {
        Graphic::TextBox(tb) => {
            assert_eq!(tb.text, "note".to_string());
            assert_eq!(tb.start.unwrap().x, mm(1));
            assert_eq!(tb.end.unwrap().y, mm(6));
            assert_eq!(tb.angle, Some(mm(90)));
            let b = tb.bounding_box();
            assert_eq!(b.min_x, mm(1));
            assert_eq!(b.max_y, mm(6));
        }
        other => panic!("expected a text box, found {:?}", other),
    }
}

#[test]
fn structural_errors_abort_the_parse() {
    // A layer record whose payload is a bare symbol, not a quoted value.
    assert!(parse_pcb_file("(kicad_pcb (footprint \"X\" (layer F.Cu)))").is_err());
    // A position whose coordinate is not numeric.
    assert!(parse_pcb_file("(kicad_pcb (footprint \"X\" (at a b)))").is_err());
    // A bare atom where the board expects a record list.
    assert!(parse_pcb_file("(kicad_pcb stray)").is_err());
}

#[test]
fn unknown_atoms_inside_a_graphic_are_tolerated() {
    let text = "(kicad_pcb
      (footprint \"X:Y\"
        (fp_line solder (start 0 0) (end 1 1) (layer \"F.Cu\") 42)
      )
    )";
    let pcb = parse_pcb_file(text).unwrap();
    assert_eq!(pcb.footprints[0].graphics.len(), 1);
}
