//! KiCad footprint model: pads, silkscreen graphics and the 3D reference.
//!
//! Footprint geometry is fixed-point millimetres: pad positions, sizes and
//! drills are emitted as they stand.

use vstd::prelude::*;

verus! {

pub struct KiFootprint {
    pub name: String,
    pub pads: Vec<KiPad>,
    pub tracks: Vec<KiTrack>,
    pub circles: Vec<KiCircle>,
    pub arcs: Vec<KiArc>,
    pub texts: Vec<KiText>,
    pub lines: Vec<KiLine>,
    pub model_3d: Option<Ki3dModel>,
}

/// How a pad connects: surface, drilled, unplated or edge connector.
#[derive(Debug, Clone, Copy, PartialEq, Eq, Structural)]
pub enum PadType {
    Smd,
    ThroughHole,
    NpThroughHole,
    Connect,
}

pub open spec fn pad_type_lexeme(t: PadType) -> Seq<char> {
    match t {
        PadType::Smd => "smd"@,
        PadType::ThroughHole => "thru_hole"@,
        PadType::NpThroughHole => "np_thru_hole"@,
        PadType::Connect => "connect"@,
    }
}

impl PadType {
    /// The S-expression lexeme of the pad kind.
    pub fn to_kicad(&self) -> (r: &'static str)
        ensures
            r@ == pad_type_lexeme(*self),
    {
        match self {
            PadType::Smd => "smd",
            PadType::ThroughHole => "thru_hole",
            PadType::NpThroughHole => "np_thru_hole",
            PadType::Connect => "connect",
        }
    }
}

/// The pad outline.
#[derive(Debug, Clone, Copy, PartialEq, Eq, Structural)]
pub enum PadShape {
    Circle,
    Rect,
    Oval,
    Trapezoid,
    RoundRect,
    Custom,
}

/// The vendor pad-shape word each outline comes from; rectangular by
/// default.
pub open spec fn pad_shape_of_word(w: Seq<char>) -> PadShape {
    if w == "ELLIPSE"@ || w == "ROUND"@ { PadShape::Circle }
    else if w == "RECT"@ { PadShape::Rect }
    else if w == "OVAL"@ { PadShape::Oval }
    else if w == "POLYGON"@ { PadShape::Custom }
    else { PadShape::Rect }
}

pub open spec fn pad_shape_lexeme(t: PadShape) -> Seq<char> {
    match t {
        PadShape::Circle => "circle"@,
        PadShape::Rect => "rect"@,
        PadShape::Oval => "oval"@,
        PadShape::Trapezoid => "trapezoid"@,
        PadShape::RoundRect => "roundrect"@,
        PadShape::Custom => "custom"@,
    }
}

impl PadShape {
    /// The outline selected by the vendor shape word.
    pub fn from_easyeda(shape: &str) -> (r: PadShape)
        ensures
            r == pad_shape_of_word(shape@),
    {
        if crate::importer::str_eq(shape, "ELLIPSE") { PadShape::Circle }
        else if crate::importer::str_eq(shape, "ROUND") { PadShape::Circle }
        else if crate::importer::str_eq(shape, "RECT") { PadShape::Rect }
        else if crate::importer::str_eq(shape, "OVAL") { PadShape::Oval }
        else if crate::importer::str_eq(shape, "POLYGON") { PadShape::Custom }
        else { PadShape::Rect }
    }

    /// The S-expression lexeme of the outline.
    pub fn to_kicad(&self) -> (r: &'static str)
        ensures
            r@ == pad_shape_lexeme(*self),
    {
        match self {
            PadShape::Circle => "circle",
            PadShape::Rect => "rect",
            PadShape::Oval => "oval",
            PadShape::Trapezoid => "trapezoid",
            PadShape::RoundRect => "roundrect",
            PadShape::Custom => "custom",
        }
    }
}

pub struct KiPad {
    pub number: String,
    pub pad_type: PadType,
    pub shape: PadShape,
    pub pos_x: i64,
    pub pos_y: i64,
    pub size_x: i64,
    pub size_y: i64,
    pub rotation: i64,
    pub layers: Vec<String>,
    pub drill: Option<Drill>,
    pub polygon: Option<String>,
}

pub struct Drill {
    pub diameter: i64,
    pub width: Option<i64>,
    pub offset_x: i64,
    pub offset_y: i64,
}

pub struct KiTrack {
    pub start_x: i64,
    pub start_y: i64,
    pub end_x: i64,
    pub end_y: i64,
    pub width: i64,
    pub layer: String,
}

pub struct KiCircle {
    pub center_x: i64,
    pub center_y: i64,
    pub end_x: i64,
    pub end_y: i64,
    pub width: i64,
    pub layer: String,
    pub fill: bool,
}

pub struct KiArc {
    pub start_x: i64,
    pub start_y: i64,
    pub mid_x: i64,
    pub mid_y: i64,
    pub end_x: i64,
    pub end_y: i64,
    pub width: i64,
    pub layer: String,
}

pub struct KiLine {
    pub start_x: i64,
    pub start_y: i64,
    pub end_x: i64,
    pub end_y: i64,
    pub width: i64,
    pub layer: String,
}

pub struct KiText {
    pub text: String,
    pub pos_x: i64,
    pub pos_y: i64,
    pub rotation: i64,
    pub layer: String,
    pub size: i64,
    pub thickness: i64,
}

pub struct Ki3dModel {
    pub path: String,
    pub offset: (i64, i64, i64),
    pub scale: (i64, i64, i64),
    pub rotate: (i64, i64, i64),
}

pub open spec fn fp_pad_fits(p: KiPad) -> bool {
    &&& crate::num::fits_coord(p.pos_x as int)
    &&& crate::num::fits_coord(p.pos_y as int)
    &&& crate::num::fits_coord(p.size_x as int)
    &&& crate::num::fits_coord(p.size_y as int)
    &&& crate::num::fits_coord(p.rotation as int)
    &&& match p.drill {
        Some(d) => crate::num::fits_coord(d.diameter as int) && match d.width {
            Some(w) => crate::num::fits_coord(w as int),
            None => true,
        },
        None => true,
    }
}

pub open spec fn fp_track_fits(p: KiTrack) -> bool {
    &&& crate::num::fits_coord(p.start_x as int)
    &&& crate::num::fits_coord(p.start_y as int)
    &&& crate::num::fits_coord(p.end_x as int)
    &&& crate::num::fits_coord(p.end_y as int)
    &&& crate::num::fits_coord(p.width as int)
}

pub open spec fn fp_circle_fits(p: KiCircle) -> bool {
    &&& crate::num::fits_coord(p.center_x as int)
    &&& crate::num::fits_coord(p.center_y as int)
    &&& crate::num::fits_coord(p.end_x as int)
    &&& crate::num::fits_coord(p.end_y as int)
    &&& crate::num::fits_coord(p.width as int)
}

pub open spec fn fp_arc_fits(p: KiArc) -> bool {
    &&& crate::num::fits_coord(p.start_x as int)
    &&& crate::num::fits_coord(p.start_y as int)
    &&& crate::num::fits_coord(p.mid_x as int)
    &&& crate::num::fits_coord(p.mid_y as int)
    &&& crate::num::fits_coord(p.end_x as int)
    &&& crate::num::fits_coord(p.end_y as int)
    &&& crate::num::fits_coord(p.width as int)
}

pub open spec fn fp_line_fits(p: KiLine) -> bool {
    &&& crate::num::fits_coord(p.start_x as int)
    &&& crate::num::fits_coord(p.start_y as int)
    &&& crate::num::fits_coord(p.end_x as int)
    &&& crate::num::fits_coord(p.end_y as int)
    &&& crate::num::fits_coord(p.width as int)
}

pub open spec fn fp_text_fits(p: KiText) -> bool {
    &&& crate::num::fits_coord(p.pos_x as int)
    &&& crate::num::fits_coord(p.pos_y as int)
    &&& crate::num::fits_coord(p.rotation as int)
    &&& crate::num::fits_coord(p.size as int)
    &&& crate::num::fits_coord(p.thickness as int)
}

pub open spec fn fp_model_fits(m: Ki3dModel) -> bool {
    &&& crate::num::fits_coord(m.offset.0 as int)
    &&& crate::num::fits_coord(m.offset.1 as int)
    &&& crate::num::fits_coord(m.offset.2 as int)
    &&& crate::num::fits_coord(m.scale.0 as int)
    &&& crate::num::fits_coord(m.scale.1 as int)
    &&& crate::num::fits_coord(m.scale.2 as int)
    &&& crate::num::fits_coord(m.rotate.0 as int)
    &&& crate::num::fits_coord(m.rotate.1 as int)
    &&& crate::num::fits_coord(m.rotate.2 as int)
}

pub open spec fn ki_footprint_fits(f: KiFootprint) -> bool {
    &&& forall|i: int| 0 <= i < f.pads@.len() ==> fp_pad_fits(#[trigger] f.pads@[i])
    &&& forall|i: int| 0 <= i < f.tracks@.len() ==> fp_track_fits(#[trigger] f.tracks@[i])
    &&& forall|i: int| 0 <= i < f.circles@.len() ==> fp_circle_fits(#[trigger] f.circles@[i])
    &&& forall|i: int| 0 <= i < f.arcs@.len() ==> fp_arc_fits(#[trigger] f.arcs@[i])
    &&& forall|i: int| 0 <= i < f.texts@.len() ==> fp_text_fits(#[trigger] f.texts@[i])
    &&& forall|i: int| 0 <= i < f.lines@.len() ==> fp_line_fits(#[trigger] f.lines@[i])
    &&& match f.model_3d {
        Some(m) => fp_model_fits(m),
        None => true,
    }
}

} // verus!
