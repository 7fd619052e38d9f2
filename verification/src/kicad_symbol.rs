//! KiCad symbol model: pin kinds, pin styles, and the symbol glyph.

use vstd::prelude::*;

verus! {

/// The electrical kind of a pin.
#[derive(Debug, Clone, Copy, PartialEq, Eq, Structural)]
pub enum PinType {
    Input,
    Output,
    Bidirectional,
    TriState,
    Passive,
    Unspecified,
    PowerIn,
    PowerOut,
    OpenCollector,
    OpenEmitter,
    NoConnect,
}

/// The single-letter vendor code of each pin kind.
pub open spec fn pin_type_of_code(code: Seq<char>) -> PinType {
    if code == "I"@ { PinType::Input }
    else if code == "O"@ { PinType::Output }
    else if code == "B"@ { PinType::Bidirectional }
    else if code == "T"@ { PinType::TriState }
    else if code == "P"@ { PinType::Passive }
    else if code == "U"@ { PinType::Unspecified }
    else if code == "W"@ { PinType::PowerIn }
    else if code == "w"@ { PinType::PowerOut }
    else if code == "C"@ { PinType::OpenCollector }
    else if code == "E"@ { PinType::OpenEmitter }
    else if code == "N"@ { PinType::NoConnect }
    else { PinType::Unspecified }
}

pub open spec fn pin_type_v6_lexeme(t: PinType) -> Seq<char> {
    match t {
        PinType::Input => "input"@,
        PinType::Output => "output"@,
        PinType::Bidirectional => "bidirectional"@,
        PinType::TriState => "tri_state"@,
        PinType::Passive => "passive"@,
        PinType::Unspecified => "unspecified"@,
        PinType::PowerIn => "power_in"@,
        PinType::PowerOut => "power_out"@,
        PinType::OpenCollector => "open_collector"@,
        PinType::OpenEmitter => "open_emitter"@,
        PinType::NoConnect => "no_connect"@,
    }
}

pub open spec fn pin_type_v5_letter(t: PinType) -> Seq<char> {
    match t {
        PinType::Input => "I"@,
        PinType::Output => "O"@,
        PinType::Bidirectional => "B"@,
        PinType::TriState => "T"@,
        PinType::Passive => "P"@,
        PinType::Unspecified => "U"@,
        PinType::PowerIn => "W"@,
        PinType::PowerOut => "w"@,
        PinType::OpenCollector => "C"@,
        PinType::OpenEmitter => "E"@,
        PinType::NoConnect => "N"@,
    }
}

impl PinType {
    /// The pin kind selected by a vendor electrical-type letter;
    /// an unknown letter means unspecified.
    pub fn from_easyeda(electric_type: &str) -> (r: PinType)
        ensures
            r == pin_type_of_code(electric_type@),
    {
        if crate::importer::str_eq(electric_type, "I") { PinType::Input }
        else if crate::importer::str_eq(electric_type, "O") { PinType::Output }
        else if crate::importer::str_eq(electric_type, "B") { PinType::Bidirectional }
        else if crate::importer::str_eq(electric_type, "T") { PinType::TriState }
        else if crate::importer::str_eq(electric_type, "P") { PinType::Passive }
        else if crate::importer::str_eq(electric_type, "U") { PinType::Unspecified }
        else if crate::importer::str_eq(electric_type, "W") { PinType::PowerIn }
        else if crate::importer::str_eq(electric_type, "w") { PinType::PowerOut }
        else if crate::importer::str_eq(electric_type, "C") { PinType::OpenCollector }
        else if crate::importer::str_eq(electric_type, "E") { PinType::OpenEmitter }
        else if crate::importer::str_eq(electric_type, "N") { PinType::NoConnect }
        else { PinType::Unspecified }
    }

    /// The v6 S-expression lexeme of the kind.
    pub fn to_kicad_v6(&self) -> (r: &'static str)
        ensures
            r@ == pin_type_v6_lexeme(*self),
    {
        match self {
            PinType::Input => "input",
            PinType::Output => "output",
            PinType::Bidirectional => "bidirectional",
            PinType::TriState => "tri_state",
            PinType::Passive => "passive",
            PinType::Unspecified => "unspecified",
            PinType::PowerIn => "power_in",
            PinType::PowerOut => "power_out",
            PinType::OpenCollector => "open_collector",
            PinType::OpenEmitter => "open_emitter",
            PinType::NoConnect => "no_connect",
        }
    }

    /// The v5 single-letter code of the kind.
    pub fn to_kicad_v5(&self) -> (r: &'static str)
        ensures
            r@ == pin_type_v5_letter(*self),
    {
        match self {
            PinType::Input => "I",
            PinType::Output => "O",
            PinType::Bidirectional => "B",
            PinType::TriState => "T",
            PinType::Passive => "P",
            PinType::Unspecified => "U",
            PinType::PowerIn => "W",
            PinType::PowerOut => "w",
            PinType::OpenCollector => "C",
            PinType::OpenEmitter => "E",
            PinType::NoConnect => "N",
        }
    }
}

/// The graphic style of a pin.
#[derive(Debug, Clone, Copy, PartialEq, Eq, Structural)]
pub enum PinStyle {
    Line,
    Inverted,
    Clock,
    InvertedClock,
    InputLow,
    ClockLow,
    OutputLow,
    EdgeClockHigh,
    NonLogic,
}

pub open spec fn pin_style_v6_lexeme(t: PinStyle) -> Seq<char> {
    match t {
        PinStyle::Line => "line"@,
        PinStyle::Inverted => "inverted"@,
        PinStyle::Clock => "clock"@,
        PinStyle::InvertedClock => "inverted_clock"@,
        PinStyle::InputLow => "input_low"@,
        PinStyle::ClockLow => "clock_low"@,
        PinStyle::OutputLow => "output_low"@,
        PinStyle::EdgeClockHigh => "edge_clock_high"@,
        PinStyle::NonLogic => "non_logic"@,
    }
}

pub open spec fn pin_style_v5_code(t: PinStyle) -> Seq<char> {
    match t {
        PinStyle::Line => ""@,
        PinStyle::Inverted => "I"@,
        PinStyle::Clock => "C"@,
        PinStyle::InvertedClock => "IC"@,
        PinStyle::InputLow => "L"@,
        PinStyle::ClockLow => "CL"@,
        PinStyle::OutputLow => "V"@,
        PinStyle::EdgeClockHigh => "F"@,
        PinStyle::NonLogic => "X"@,
    }
}

impl PinStyle {
    /// The v6 S-expression lexeme of the style.
    pub fn to_kicad_v6(&self) -> (r: &'static str)
        ensures
            r@ == pin_style_v6_lexeme(*self),
    {
        match self {
            PinStyle::Line => "line",
            PinStyle::Inverted => "inverted",
            PinStyle::Clock => "clock",
            PinStyle::InvertedClock => "inverted_clock",
            PinStyle::InputLow => "input_low",
            PinStyle::ClockLow => "clock_low",
            PinStyle::OutputLow => "output_low",
            PinStyle::EdgeClockHigh => "edge_clock_high",
            PinStyle::NonLogic => "non_logic",
        }
    }

    /// The v5 letter code of the style (empty for a plain line).
    pub fn to_kicad_v5(&self) -> (r: &'static str)
        ensures
            r@ == pin_style_v5_code(*self),
    {
        match self {
            PinStyle::Line => "",
            PinStyle::Inverted => "I",
            PinStyle::Clock => "C",
            PinStyle::InvertedClock => "IC",
            PinStyle::InputLow => "L",
            PinStyle::ClockLow => "CL",
            PinStyle::OutputLow => "V",
            PinStyle::EdgeClockHigh => "F",
            PinStyle::NonLogic => "X",
        }
    }
}

/// The schematic glyph; positions and lengths are fixed-point pixels and
/// are converted at emit time.
pub struct KiSymbol {
    pub name: String,
    pub reference: String,
    pub value: String,
    pub footprint: String,
    pub datasheet: String,
    pub manufacturer: String,
    pub lcsc_id: String,
    pub jlc_id: String,
    pub pins: Vec<KiPin>,
    pub rectangles: Vec<KiRectangle>,
    pub circles: Vec<KiCircle>,
    pub arcs: Vec<KiArc>,
    pub polylines: Vec<KiPolyline>,
}

pub struct KiPin {
    pub number: String,
    pub name: String,
    pub pin_type: PinType,
    pub style: PinStyle,
    pub pos_x: i64,
    pub pos_y: i64,
    pub rotation: i64,
    pub length: i64,
}

pub struct KiRectangle {
    pub x1: i64,
    pub y1: i64,
    pub x2: i64,
    pub y2: i64,
    pub stroke_width: i64,
    pub fill: bool,
}

pub struct KiCircle {
    pub cx: i64,
    pub cy: i64,
    pub radius: i64,
    pub stroke_width: i64,
    pub fill: bool,
}

pub struct KiArc {
    pub start_x: i64,
    pub start_y: i64,
    pub mid_x: i64,
    pub mid_y: i64,
    pub end_x: i64,
    pub end_y: i64,
    pub stroke_width: i64,
}

pub struct KiPolyline {
    pub points: Vec<(i64, i64)>,
    pub stroke_width: i64,
    pub fill: bool,
}

/// All coordinates of the glyph are bounded parse results.
pub open spec fn ki_symbol_fits(s: KiSymbol) -> bool {
    &&& forall|i: int| 0 <= i < s.pins@.len() ==> ki_pin_fits(#[trigger] s.pins@[i])
    &&& forall|i: int| 0 <= i < s.rectangles@.len()
        ==> ki_rect_fits(#[trigger] s.rectangles@[i])
    &&& forall|i: int| 0 <= i < s.circles@.len() ==> ki_circle_fits(#[trigger] s.circles@[i])
    &&& forall|i: int| 0 <= i < s.arcs@.len() ==> ki_arc_fits(#[trigger] s.arcs@[i])
    &&& forall|i: int| 0 <= i < s.polylines@.len() ==> ki_poly_fits(#[trigger] s.polylines@[i])
}

pub open spec fn ki_pin_fits(p: KiPin) -> bool {
    &&& crate::num::fits_coord(p.pos_x as int)
    &&& crate::num::fits_coord(p.pos_y as int)
    &&& crate::num::fits_coord(p.length as int)
    &&& -100000000 < p.rotation < 100000000
}

pub open spec fn ki_rect_fits(p: KiRectangle) -> bool {
    &&& crate::num::fits_coord(p.x1 as int)
    &&& crate::num::fits_coord(p.y1 as int)
    &&& crate::num::fits_coord(p.x2 as int)
    &&& crate::num::fits_coord(p.y2 as int)
    &&& crate::num::fits_coord(p.stroke_width as int)
}

pub open spec fn ki_circle_fits(p: KiCircle) -> bool {
    &&& crate::num::fits_coord(p.cx as int)
    &&& crate::num::fits_coord(p.cy as int)
    &&& crate::num::fits_coord(p.radius as int)
    &&& crate::num::fits_coord(p.stroke_width as int)
}

pub open spec fn ki_arc_fits(p: KiArc) -> bool {
    &&& crate::num::fits_coord(p.start_x as int)
    &&& crate::num::fits_coord(p.start_y as int)
    &&& crate::num::fits_coord(p.mid_x as int)
    &&& crate::num::fits_coord(p.mid_y as int)
    &&& crate::num::fits_coord(p.end_x as int)
    &&& crate::num::fits_coord(p.end_y as int)
    &&& crate::num::fits_coord(p.stroke_width as int)
}

pub open spec fn ki_poly_fits(p: KiPolyline) -> bool {
    &&& forall|i: int| 0 <= i < p.points@.len()
        ==> crate::num::fits_coord((#[trigger] p.points@[i]).0 as int)
            && crate::num::fits_coord(p.points@[i].1 as int)
    &&& crate::num::fits_coord(p.stroke_width as int)
    &&& p.points@.len() < 1000000000
}

} // verus!
