//! The domain model shared by footprints and boards: positions, bounding
//! boxes, graphic primitives, and footprints with their pads.

pub mod footprint;
pub mod graphic;
pub mod positionals;

pub use footprint::{
    CustomPadClearance, CustomPadOptions, CustomPadPrimitives, Drill, Font, Footprint,
    FootprintAttributes, FootprintProperty, FootprintType, Group, HorizontalJustify, Justify,
    Layer, Model3D, Pad, PadCorner, PadGraphic, PadNet, PadProperty, PadShape, PadType,
    TextEffects, Uuid, Vec3, VerticalJustify, Zone, ZoneConnect,
};
pub use graphic::{
    FootprintArc, FootprintCircle, FootprintCurve, FootprintLine, FootprintPolygon,
    FootprintRectangle, FootprintText, FootprintTextBox, FootprintTextType, Graphic, RgbaColor,
    Stroke, StrokeType,
};
pub use positionals::{BoundingBox, GetBoundingBox, Point, PointList, Position, Size};
