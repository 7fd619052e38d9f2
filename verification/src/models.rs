//! The intermediate component model decoded from the vendor shape stream.
//!
//! Coordinates, radii, stroke widths and lengths are fixed point
//! (`crate::num::FIX_SCALE` units per source unit).  Each executable struct
//! has a ghost mirror (`…V`) holding the same data over `int` and
//! `Seq<char>`, which the decoder contracts are stated over.

use vstd::prelude::*;

verus! {

pub struct EeSymbol {
    pub name: String,
    pub prefix: String,
    pub pins: Vec<EePin>,
    pub rectangles: Vec<EeRectangle>,
    pub circles: Vec<EeCircle>,
    pub ellipses: Vec<EeEllipse>,
    pub arcs: Vec<EeArc>,
    pub polylines: Vec<EePolyline>,
    pub polygons: Vec<EePolygon>,
    pub paths: Vec<EePath>,
    pub texts: Vec<EeText>,
}

pub struct EePin {
    pub number: String,
    pub name: String,
    pub x: i64,
    pub y: i64,
    pub rotation: i64,
    pub length: i64,
    pub name_visible: bool,
    pub number_visible: bool,
    pub electric_type: String,
    pub dot: bool,
    pub clock: bool,
}

pub struct EeRectangle {
    pub x: i64,
    pub y: i64,
    pub width: i64,
    pub height: i64,
    pub stroke_width: i64,
    pub fill: bool,
}

pub struct EeCircle {
    pub cx: i64,
    pub cy: i64,
    pub radius: i64,
    pub stroke_width: i64,
    pub fill: bool,
}

pub struct EeEllipse {
    pub cx: i64,
    pub cy: i64,
    pub rx: i64,
    pub ry: i64,
    pub stroke_width: i64,
    pub fill: bool,
}

pub struct EeArc {
    pub x: i64,
    pub y: i64,
    pub radius: i64,
    pub start_angle: i64,
    pub end_angle: i64,
    pub stroke_width: i64,
}

pub struct EePolyline {
    pub points: Vec<(i64, i64)>,
    pub stroke_width: i64,
}

pub struct EePolygon {
    pub points: Vec<(i64, i64)>,
    pub stroke_width: i64,
    pub fill: bool,
}

pub struct EePath {
    pub path_data: String,
    pub stroke_width: i64,
    pub fill: bool,
}

pub struct EeText {
    pub text: String,
    pub x: i64,
    pub y: i64,
    pub rotation: i64,
    pub font_size: i64,
}

pub struct EeFootprint {
    pub name: String,
    pub pads: Vec<EePad>,
    pub tracks: Vec<EeTrack>,
    pub circles: Vec<EeCircle>,
    pub arcs: Vec<EeArc>,
    pub rectangles: Vec<EeRectangle>,
    pub texts: Vec<EeText>,
    pub holes: Vec<EeHole>,
    pub vias: Vec<EeVia>,
    pub svg_nodes: Vec<EeSvgNode>,
}

pub struct EePad {
    pub number: String,
    pub shape: String,
    pub x: i64,
    pub y: i64,
    pub width: i64,
    pub height: i64,
    pub rotation: i64,
    pub hole_radius: Option<i64>,
    pub hole_length: Option<i64>,
    pub points: String,
    pub layer_id: i64,
}

pub struct EeTrack {
    pub stroke_width: i64,
    pub layer_id: i64,
    pub net: String,
    pub points: String,
}

pub struct EeHole {
    pub x: i64,
    pub y: i64,
    pub radius: i64,
}

pub struct EeVia {
    pub x: i64,
    pub y: i64,
    pub diameter: i64,
    pub net: String,
    pub radius: i64,
}

pub struct EeSvgNode {
    pub path: String,
    pub stroke_width: i64,
    pub layer: String,
}

// --- ghost mirrors ---

pub ghost struct PinV {
    pub number: Seq<char>,
    pub name: Seq<char>,
    pub x: int,
    pub y: int,
    pub rotation: int,
    pub length: int,
    pub name_visible: bool,
    pub number_visible: bool,
    pub electric_type: Seq<char>,
    pub dot: bool,
    pub clock: bool,
}

pub ghost struct RectV {
    pub x: int,
    pub y: int,
    pub width: int,
    pub height: int,
    pub stroke_width: int,
    pub fill: bool,
}

pub ghost struct CircleV {
    pub cx: int,
    pub cy: int,
    pub radius: int,
    pub stroke_width: int,
    pub fill: bool,
}

pub ghost struct EllipseV {
    pub cx: int,
    pub cy: int,
    pub rx: int,
    pub ry: int,
    pub stroke_width: int,
    pub fill: bool,
}

pub ghost struct ArcV {
    pub x: int,
    pub y: int,
    pub radius: int,
    pub start_angle: int,
    pub end_angle: int,
    pub stroke_width: int,
}

pub ghost struct PolyV {
    pub points: Seq<(int, int)>,
    pub stroke_width: int,
    pub fill: bool,
}

pub ghost struct PathV {
    pub path_data: Seq<char>,
    pub stroke_width: int,
    pub fill: bool,
}

pub ghost struct TextV {
    pub text: Seq<char>,
    pub x: int,
    pub y: int,
    pub rotation: int,
    pub font_size: int,
}

pub ghost struct PadV {
    pub number: Seq<char>,
    pub shape: Seq<char>,
    pub x: int,
    pub y: int,
    pub width: int,
    pub height: int,
    pub rotation: int,
    pub hole_radius: Option<int>,
    pub hole_length: Option<int>,
    pub points: Seq<char>,
    pub layer_id: int,
}

pub ghost struct TrackV {
    pub stroke_width: int,
    pub layer_id: int,
    pub net: Seq<char>,
    pub points: Seq<char>,
}

pub ghost struct HoleV {
    pub x: int,
    pub y: int,
    pub radius: int,
}

pub ghost struct ViaV {
    pub x: int,
    pub y: int,
    pub diameter: int,
    pub net: Seq<char>,
    pub radius: int,
}

pub ghost struct SvgNodeV {
    pub path: Seq<char>,
    pub layer: Seq<char>,
}

pub open spec fn pin_val(p: EePin) -> PinV {
    PinV {
        number: p.number@,
        name: p.name@,
        x: p.x as int,
        y: p.y as int,
        rotation: p.rotation as int,
        length: p.length as int,
        name_visible: p.name_visible,
        number_visible: p.number_visible,
        electric_type: p.electric_type@,
        dot: p.dot,
        clock: p.clock,
    }
}

pub open spec fn rect_val(r: EeRectangle) -> RectV {
    RectV {
        x: r.x as int,
        y: r.y as int,
        width: r.width as int,
        height: r.height as int,
        stroke_width: r.stroke_width as int,
        fill: r.fill,
    }
}

pub open spec fn circle_val(c: EeCircle) -> CircleV {
    CircleV {
        cx: c.cx as int,
        cy: c.cy as int,
        radius: c.radius as int,
        stroke_width: c.stroke_width as int,
        fill: c.fill,
    }
}

pub open spec fn ellipse_val(e: EeEllipse) -> EllipseV {
    EllipseV {
        cx: e.cx as int,
        cy: e.cy as int,
        rx: e.rx as int,
        ry: e.ry as int,
        stroke_width: e.stroke_width as int,
        fill: e.fill,
    }
}

pub open spec fn arc_val(a: EeArc) -> ArcV {
    ArcV {
        x: a.x as int,
        y: a.y as int,
        radius: a.radius as int,
        start_angle: a.start_angle as int,
        end_angle: a.end_angle as int,
        stroke_width: a.stroke_width as int,
    }
}

pub open spec fn points_val(ps: Seq<(i64, i64)>) -> Seq<(int, int)> {
    ps.map_values(|p: (i64, i64)| (p.0 as int, p.1 as int))
}

pub open spec fn polyline_val(p: EePolyline) -> PolyV {
    PolyV { points: points_val(p.points@), stroke_width: p.stroke_width as int, fill: false }
}

pub open spec fn polygon_val(p: EePolygon) -> PolyV {
    PolyV { points: points_val(p.points@), stroke_width: p.stroke_width as int, fill: p.fill }
}

pub open spec fn path_val(p: EePath) -> PathV {
    PathV { path_data: p.path_data@, stroke_width: p.stroke_width as int, fill: p.fill }
}

pub open spec fn text_val(t: EeText) -> TextV {
    TextV {
        text: t.text@,
        x: t.x as int,
        y: t.y as int,
        rotation: t.rotation as int,
        font_size: t.font_size as int,
    }
}

pub open spec fn opt_val(o: Option<i64>) -> Option<int> {
    match o {
        Some(v) => Some(v as int),
        None => None,
    }
}

pub open spec fn pad_val(p: EePad) -> PadV {
    PadV {
        number: p.number@,
        shape: p.shape@,
        x: p.x as int,
        y: p.y as int,
        width: p.width as int,
        height: p.height as int,
        rotation: p.rotation as int,
        hole_radius: opt_val(p.hole_radius),
        hole_length: opt_val(p.hole_length),
        points: p.points@,
        layer_id: p.layer_id as int,
    }
}

pub open spec fn track_val(t: EeTrack) -> TrackV {
    TrackV {
        stroke_width: t.stroke_width as int,
        layer_id: t.layer_id as int,
        net: t.net@,
        points: t.points@,
    }
}

pub open spec fn hole_val(h: EeHole) -> HoleV {
    HoleV { x: h.x as int, y: h.y as int, radius: h.radius as int }
}

pub open spec fn via_val(v: EeVia) -> ViaV {
    ViaV {
        x: v.x as int,
        y: v.y as int,
        diameter: v.diameter as int,
        net: v.net@,
        radius: v.radius as int,
    }
}

pub open spec fn svg_node_val(n: EeSvgNode) -> SvgNodeV {
    SvgNodeV { path: n.path@, layer: n.layer@ }
}

} // verus!
