//! The converter from the vendor intermediate model to the Altium model.
//!
//! Schematic geometry: one source grid unit is 100 mil, truncated to
//! integer mils.  Board geometry: one millimetre is 39.3701 mil, rounded
//! to the fixed-point grid.  When the vendor gives no electrical type, the
//! pin name decides: power rails, `IN`/`OUT` affixes, port names, and
//! passive for everything else.

use vstd::prelude::*;
use vstd::string::*;
use crate::models::{EeSymbol, EePin, EeRectangle, EeFootprint, EePad};
use crate::altium_symbol::{AdSymbol, AdPin, AdRectangle, PinElectrical, PinOrientation};
use crate::altium_footprint::{AdFootprint, AdPad, Ad3DModel, PadShape, PadLayer};
use crate::importer::{ascii_upper, contains_seq, starts_with_seq, to_ascii_upper, str_contains,
    str_starts_with, str_eq};
use crate::num::fits_coord;

verus! {

/// Grid units to truncated integer mils: one grid unit is 100 mil.
pub open spec fn grid_to_mil(v: int) -> int {
    if v >= 0 { v / 100 } else { -((-v) / 100) }
}

/// Millimetres to fixed-point mils: 1 mm = 39.3701 mil, rounded half away
/// from zero.
pub open spec fn mm_to_mil(v: int) -> int {
    crate::convert::rdiv(v * 393701, 10000)
}

/// A board coordinate small enough that its mil image stays on the fixed
/// grid: one kilometre.
pub open spec fn fits_mm(v: int) -> bool {
    -10000000000 <= v <= 10000000000
}

/// The orientation a vendor rotation selects; right for anything oblique.
pub open spec fn orientation_of(rotation: int) -> PinOrientation {
    if rotation == 0 { PinOrientation::Right }
    else if rotation == 90 { PinOrientation::Up }
    else if rotation == 180 { PinOrientation::Left }
    else if rotation == 270 { PinOrientation::Down }
    else { PinOrientation::Right }
}

/// The electrical class guessed from a pin name: power rails first, then
/// input and output affixes, then port-like names, passive otherwise.
pub open spec fn guess_electrical(name: Seq<char>) -> PinElectrical {
    let u = ascii_upper(name);
    if contains_seq(u, "VCC"@) || contains_seq(u, "VDD"@) || contains_seq(u, "VSS"@)
        || contains_seq(u, "GND"@) || contains_seq(u, "VBAT"@) || contains_seq(u, "POWER"@) {
        PinElectrical::Power
    } else if starts_with_seq(u, "IN"@) || contains_seq(u, "_IN"@) {
        PinElectrical::Input
    } else if starts_with_seq(u, "OUT"@) || contains_seq(u, "_OUT"@) {
        PinElectrical::Output
    } else if contains_seq(u, "IO"@) || contains_seq(u, "GPIO"@) || starts_with_seq(u, "P"@) {
        PinElectrical::IO
    } else {
        PinElectrical::Passive
    }
}

/// The electrical class named by a vendor electrical-type letter.  The
/// tri-state, unspecified and no-connect letters have no class of their
/// own here and fall back to passive; any other letter is unknown.
pub open spec fn electrical_of_letter(code: Seq<char>) -> Option<PinElectrical> {
    if code == "I"@ { Some(PinElectrical::Input) }
    else if code == "O"@ { Some(PinElectrical::Output) }
    else if code == "B"@ { Some(PinElectrical::IO) }
    else if code == "P"@ { Some(PinElectrical::Passive) }
    else if code == "W"@ { Some(PinElectrical::Power) }
    else if code == "w"@ { Some(PinElectrical::Power) }
    else if code == "C"@ { Some(PinElectrical::OpenCollector) }
    else if code == "E"@ { Some(PinElectrical::OpenEmitter) }
    else if code == "T"@ { Some(PinElectrical::Passive) }
    else if code == "U"@ { Some(PinElectrical::Passive) }
    else if code == "N"@ { Some(PinElectrical::Passive) }
    else { None }
}

/// The class of a pin: the vendor letter decides when it is known, the
/// name heuristic only when it is absent or unknown.
pub open spec fn electrical_of_pin(code: Seq<char>, name: Seq<char>) -> PinElectrical {
    match electrical_of_letter(code) {
        Some(el) => el,
        None => guess_electrical(name),
    }
}

/// How a converted pin relates to its vendor pin.
pub open spec fn ad_pin_matches(a: AdPin, e: EePin) -> bool {
    &&& a.x as int == grid_to_mil(e.x as int)
    &&& a.y as int == grid_to_mil(e.y as int)
    &&& a.length == 100
    &&& a.name@ == e.name@
    &&& a.designator@ == e.number@
    &&& a.electrical == electrical_of_pin(e.electric_type@, e.name@)
    &&& a.orientation == orientation_of(e.rotation as int)
}

/// How a converted body rectangle relates to its vendor rectangle.
pub open spec fn ad_rect_matches(a: AdRectangle, e: EeRectangle) -> bool {
    &&& a.x as int == grid_to_mil(e.x as int)
    &&& a.y as int == grid_to_mil(e.y as int)
    &&& a.width as int == grid_to_mil(e.width as int)
    &&& a.height as int == grid_to_mil(e.height as int)
    &&& a.color == 0
    &&& !a.is_solid
}

/// The Altium pad outline a vendor shape word selects.
pub open spec fn ad_shape_of_word(w: Seq<char>) -> PadShape {
    if w == "OVAL"@ || w == "ELLIPSE"@ { PadShape::Round }
    else if w == "RECT"@ { PadShape::Rectangle }
    else if w == "OCTAGON"@ { PadShape::Octagonal }
    else if w == "ROUNDRECT"@ { PadShape::RoundRect }
    else { PadShape::Round }
}

/// How a converted pad relates to its vendor pad.
pub open spec fn ad_pad_matches(a: AdPad, e: EePad) -> bool {
    &&& a.x as int == mm_to_mil(e.x as int)
    &&& a.y as int == mm_to_mil(e.y as int)
    &&& a.width as int == mm_to_mil(e.width as int)
    &&& a.height as int == mm_to_mil(e.height as int)
    &&& a.hole_size as int == (match e.hole_radius {
        Some(r) => mm_to_mil(2 * r),
        None => 0int,
    })
    &&& a.shape == ad_shape_of_word(e.shape@)
    &&& a.name@ == e.number@
    &&& a.layer == (if a.hole_size > 0 { PadLayer::MultiLayer } else { PadLayer::Top })
    &&& a.rotation == e.rotation
}

/// Every vendor value the converter reads is a bounded parse result.
pub open spec fn ee_symbol_fits(s: EeSymbol) -> bool {
    &&& forall|i: int| 0 <= i < s.pins@.len()
        ==> fits_coord((#[trigger] s.pins@[i]).x as int)
            && fits_coord(s.pins@[i].y as int)
            && fits_coord(s.pins@[i].length as int)
            && fits_coord(s.pins@[i].rotation as int)
    &&& forall|i: int| 0 <= i < s.rectangles@.len()
        ==> fits_coord((#[trigger] s.rectangles@[i]).x as int)
            && fits_coord(s.rectangles@[i].y as int)
            && fits_coord(s.rectangles@[i].width as int)
            && fits_coord(s.rectangles@[i].height as int)
}

pub open spec fn ee_footprint_pads_fit(f: EeFootprint) -> bool {
    forall|i: int| 0 <= i < f.pads@.len()
        ==> fits_mm((#[trigger] f.pads@[i]).x as int)
            && fits_mm(f.pads@[i].y as int)
            && fits_mm(f.pads@[i].width as int)
            && fits_mm(f.pads@[i].height as int)
            && fits_coord(f.pads@[i].rotation as int)
            && (match f.pads@[i].hole_radius {
                Some(r) => 0 <= r && fits_mm(r as int),
                None => true,
            })
}

/// Least pin X of a nonempty pin list.
pub open spec fn pins_min_x(pins: Seq<AdPin>) -> int
    decreases pins.len(),
{
    if pins.len() <= 1 {
        if pins.len() == 0 { 0 } else { pins[0].x as int }
    } else {
        let m = pins_min_x(pins.drop_last());
        if (pins.last().x as int) < m { pins.last().x as int } else { m }
    }
}

/// Greatest pin X of a nonempty pin list.
pub open spec fn pins_max_x(pins: Seq<AdPin>) -> int
    decreases pins.len(),
{
    if pins.len() <= 1 {
        if pins.len() == 0 { 0 } else { pins[0].x as int }
    } else {
        let m = pins_max_x(pins.drop_last());
        if (pins.last().x as int) > m { pins.last().x as int } else { m }
    }
}

/// Least pin Y of a nonempty pin list.
pub open spec fn pins_min_y(pins: Seq<AdPin>) -> int
    decreases pins.len(),
{
    if pins.len() <= 1 {
        if pins.len() == 0 { 0 } else { pins[0].y as int }
    } else {
        let m = pins_min_y(pins.drop_last());
        if (pins.last().y as int) < m { pins.last().y as int } else { m }
    }
}

/// Greatest pin Y of a nonempty pin list.
pub open spec fn pins_max_y(pins: Seq<AdPin>) -> int
    decreases pins.len(),
{
    if pins.len() <= 1 {
        if pins.len() == 0 { 0 } else { pins[0].y as int }
    } else {
        let m = pins_max_y(pins.drop_last());
        if (pins.last().y as int) > m { pins.last().y as int } else { m }
    }
}

/// The default body: with no pins the fixed 200 by 400 mil box; otherwise
/// exactly the pin bounding box inflated by 50 mil on every side.
pub open spec fn default_body_matches(r: AdRectangle, pins: Seq<AdPin>) -> bool {
    if pins.len() == 0 {
        r.x == -100 && r.y == -200 && r.width == 200 && r.height == 400
    } else {
        &&& r.x as int == pins_min_x(pins) - 50
        &&& r.y as int == pins_min_y(pins) - 50
        &&& r.width as int == (pins_max_x(pins) - pins_min_x(pins)) + 100
        &&& r.height as int == (pins_max_y(pins) - pins_min_y(pins)) + 100
    }
}

/// Converts vendor components to the Altium model.
pub struct AltiumConverter;

impl AltiumConverter {
    pub fn new() -> (r: AltiumConverter)
    {
        AltiumConverter
    }

    /// Guess the electrical class from the pin name.
    pub fn guess_pin_electrical(&self, name: &str) -> (r: PinElectrical)
        ensures
            r == guess_electrical(name@),
    {
        let upper = to_ascii_upper(name);
        let u = upper.as_str();
        if str_contains(u, "VCC") || str_contains(u, "VDD") || str_contains(u, "VSS")
            || str_contains(u, "GND") || str_contains(u, "VBAT") || str_contains(u, "POWER") {
            PinElectrical::Power
        } else if str_starts_with(u, "IN") || str_contains(u, "_IN") {
            PinElectrical::Input
        } else if str_starts_with(u, "OUT") || str_contains(u, "_OUT") {
            PinElectrical::Output
        } else if str_contains(u, "IO") || str_contains(u, "GPIO") || str_starts_with(u, "P") {
            PinElectrical::IO
        } else {
            PinElectrical::Passive
        }
    }

    /// The orientation of a vendor rotation.
    pub fn rotation_to_orientation(&self, rotation: i64) -> (r: PinOrientation)
        ensures
            r == orientation_of(rotation as int),
    {
        if rotation == 0 { PinOrientation::Right }
        else if rotation == 90 { PinOrientation::Up }
        else if rotation == 180 { PinOrientation::Left }
        else if rotation == 270 { PinOrientation::Down }
        else { PinOrientation::Right }
    }

    fn convert_pin(&self, ee_pin: &EePin) -> (r: AdPin)
        requires
            fits_coord(ee_pin.x as int),
            fits_coord(ee_pin.y as int),
        ensures
            ad_pin_matches(r, *ee_pin),
            crate::altium_symbol::ad_pin_fits(r),
    {
        let x = if ee_pin.x >= 0 { ee_pin.x / 100 } else { -((-ee_pin.x) / 100) };
        let y = if ee_pin.y >= 0 { ee_pin.y / 100 } else { -((-ee_pin.y) / 100) };
        let code = ee_pin.electric_type.as_str();
        let electrical = if str_eq(code, "I") { PinElectrical::Input }
        else if str_eq(code, "O") { PinElectrical::Output }
        else if str_eq(code, "B") { PinElectrical::IO }
        else if str_eq(code, "P") { PinElectrical::Passive }
        else if str_eq(code, "W") { PinElectrical::Power }
        else if str_eq(code, "w") { PinElectrical::Power }
        else if str_eq(code, "C") { PinElectrical::OpenCollector }
        else if str_eq(code, "E") { PinElectrical::OpenEmitter }
        else if str_eq(code, "T") { PinElectrical::Passive }
        else if str_eq(code, "U") { PinElectrical::Passive }
        else if str_eq(code, "N") { PinElectrical::Passive }
        else { self.guess_pin_electrical(ee_pin.name.as_str()) };
        AdPin {
            x,
            y,
            length: 100,
            name: ee_pin.name.clone(),
            designator: ee_pin.number.clone(),
            electrical,
            orientation: self.rotation_to_orientation(ee_pin.rotation),
        }
    }

    fn convert_rectangle(&self, ee_rect: &EeRectangle) -> (r: AdRectangle)
        requires
            fits_coord(ee_rect.x as int),
            fits_coord(ee_rect.y as int),
            fits_coord(ee_rect.width as int),
            fits_coord(ee_rect.height as int),
        ensures
            ad_rect_matches(r, *ee_rect),
            crate::altium_symbol::ad_rect_fits(r),
    {
        let x = if ee_rect.x >= 0 { ee_rect.x / 100 } else { -((-ee_rect.x) / 100) };
        let y = if ee_rect.y >= 0 { ee_rect.y / 100 } else { -((-ee_rect.y) / 100) };
        let width = if ee_rect.width >= 0 { ee_rect.width / 100 } else { -((-ee_rect.width) / 100) };
        let height = if ee_rect.height >= 0 { ee_rect.height / 100 } else { -((-ee_rect.height) / 100) };
        AdRectangle { x, y, width, height, color: 0, is_solid: false }
    }

    /// The default body: the pin bounding box inflated by 50 mil, or a
    /// 200 by 400 mil box when there are no pins.
    pub fn create_default_body(&self, pins: &Vec<AdPin>) -> (r: AdRectangle)
        requires
            forall|i: int| 0 <= i < pins@.len()
                ==> crate::altium_symbol::ad_pin_fits(#[trigger] pins@[i]),
        ensures
            default_body_matches(r, pins@),
            !r.is_solid && r.color == 0,
            crate::altium_symbol::ad_rect_fits(r),
    {
        if pins.len() == 0 {
            return AdRectangle { x: -100, y: -200, width: 200, height: 400, color: 0,
                is_solid: false };
        }
        let mut min_x = pins[0].x;
        let mut max_x = pins[0].x;
        let mut min_y = pins[0].y;
        let mut max_y = pins[0].y;
        let mut i: usize = 1;
        proof {
            assert(pins@.take(1).drop_last() =~= pins@.take(0));
            assert(pins@.take(1).last() == pins@[0]);
        }
        while i < pins.len()
            invariant
                1 <= i <= pins@.len(),
                forall|k: int| 0 <= k < pins@.len()
                    ==> crate::altium_symbol::ad_pin_fits(#[trigger] pins@[k]),
                min_x as int == pins_min_x(pins@.take(i as int)),
                max_x as int == pins_max_x(pins@.take(i as int)),
                min_y as int == pins_min_y(pins@.take(i as int)),
                max_y as int == pins_max_y(pins@.take(i as int)),
                -1000000000000 <= min_x <= max_x <= 1000000000000,
                -1000000000000 <= min_y <= max_y <= 1000000000000,
            decreases pins@.len() - i,
        {
            proof {
                assert(pins@.take(i + 1).drop_last() =~= pins@.take(i as int));
                assert(pins@.take(i + 1).last() == pins@[i as int]);
            }
            let p = &pins[i];
            if p.x < min_x {
                min_x = p.x;
            }
            if p.x > max_x {
                max_x = p.x;
            }
            if p.y < min_y {
                min_y = p.y;
            }
            if p.y > max_y {
                max_y = p.y;
            }
            i = i + 1;
        }
        proof {
            assert(pins@.take(pins@.len() as int) =~= pins@);
        }
        AdRectangle {
            x: min_x - 50,
            y: min_y - 50,
            width: (max_x - min_x) + 100,
            height: (max_y - min_y) + 100,
            color: 0,
            is_solid: false,
        }
    }

    /// Convert a vendor symbol: every pin and rectangle mapped in order,
    /// the default body added when the symbol has none.
    pub fn convert_symbol(&self, ee_symbol: &EeSymbol) -> (r: AdSymbol)
        requires
            ee_symbol_fits(*ee_symbol),
        ensures
            r.libref@ == ee_symbol.name@,
            r.description@ == ee_symbol.name@ + " - Converted from EasyEDA"@,
            r.pins@.len() == ee_symbol.pins@.len(),
            forall|i: int| 0 <= i < r.pins@.len()
                ==> ad_pin_matches(#[trigger] r.pins@[i], ee_symbol.pins@[i]),
            ee_symbol.rectangles@.len() > 0 ==> r.rectangles@.len()
                == ee_symbol.rectangles@.len()
                && forall|i: int| 0 <= i < r.rectangles@.len()
                    ==> ad_rect_matches(#[trigger] r.rectangles@[i], ee_symbol.rectangles@[i]),
            ee_symbol.rectangles@.len() == 0 ==> r.rectangles@.len() == 1
                && default_body_matches(r.rectangles@[0], r.pins@)
                && !r.rectangles@[0].is_solid && r.rectangles@[0].color == 0,
            r.lines@.len() == 0,
            r.texts@.len() == 0,
            crate::altium_symbol::ad_symbol_fits(r),
    {
        let mut description = String::new();
        description.append(ee_symbol.name.as_str());
        description.append(" - Converted from EasyEDA");
        let mut pins: Vec<AdPin> = Vec::new();
        let mut i: usize = 0;
        while i < ee_symbol.pins.len()
            invariant
                0 <= i <= ee_symbol.pins@.len(),
                ee_symbol_fits(*ee_symbol),
                pins@.len() == i,
                forall|k: int| 0 <= k < i
                    ==> ad_pin_matches(#[trigger] pins@[k], ee_symbol.pins@[k]),
                forall|k: int| 0 <= k < i
                    ==> crate::altium_symbol::ad_pin_fits(#[trigger] pins@[k]),
            decreases ee_symbol.pins@.len() - i,
        {
            let p = self.convert_pin(&ee_symbol.pins[i]);
            pins.push(p);
            i = i + 1;
        }
        let mut rectangles: Vec<AdRectangle> = Vec::new();
        let mut i: usize = 0;
        while i < ee_symbol.rectangles.len()
            invariant
                0 <= i <= ee_symbol.rectangles@.len(),
                ee_symbol_fits(*ee_symbol),
                rectangles@.len() == i,
                forall|k: int| 0 <= k < i
                    ==> ad_rect_matches(#[trigger] rectangles@[k], ee_symbol.rectangles@[k]),
                forall|k: int| 0 <= k < i
                    ==> crate::altium_symbol::ad_rect_fits(#[trigger] rectangles@[k]),
            decreases ee_symbol.rectangles@.len() - i,
        {
            let rct = self.convert_rectangle(&ee_symbol.rectangles[i]);
            rectangles.push(rct);
            i = i + 1;
        }
        if rectangles.len() == 0 {
            let body = self.create_default_body(&pins);
            rectangles.push(body);
        }
        AdSymbol {
            libref: ee_symbol.name.clone(),
            description,
            pins,
            rectangles,
            lines: Vec::new(),
            texts: Vec::new(),
        }
    }

    fn convert_pad(&self, ee_pad: &EePad) -> (r: AdPad)
        requires
            fits_mm(ee_pad.x as int),
            fits_mm(ee_pad.y as int),
            fits_mm(ee_pad.width as int),
            fits_mm(ee_pad.height as int),
            fits_coord(ee_pad.rotation as int),
            match ee_pad.hole_radius {
                Some(r) => 0 <= r && fits_mm(r as int),
                None => true,
            },
        ensures
            ad_pad_matches(r, *ee_pad),
            crate::altium_footprint::ad_pad_fits(r),
    {
        let x = mm_to_mil_exec(ee_pad.x);
        let y = mm_to_mil_exec(ee_pad.y);
        let width = mm_to_mil_exec(ee_pad.width);
        let height = mm_to_mil_exec(ee_pad.height);
        let hole_size: i64 = match ee_pad.hole_radius {
            Some(r) => mm_to_mil_exec(2 * r),
            None => 0,
        };
        let shape = if str_eq(ee_pad.shape.as_str(), "OVAL") { PadShape::Round }
        else if str_eq(ee_pad.shape.as_str(), "ELLIPSE") { PadShape::Round }
        else if str_eq(ee_pad.shape.as_str(), "RECT") { PadShape::Rectangle }
        else if str_eq(ee_pad.shape.as_str(), "OCTAGON") { PadShape::Octagonal }
        else if str_eq(ee_pad.shape.as_str(), "ROUNDRECT") { PadShape::RoundRect }
        else { PadShape::Round };
        let layer = if hole_size > 0 { PadLayer::MultiLayer } else { PadLayer::Top };
        AdPad {
            x,
            y,
            width,
            height,
            hole_size,
            shape,
            name: ee_pad.number.clone(),
            layer,
            rotation: ee_pad.rotation,
        }
    }

    /// Convert a vendor footprint: every pad mapped in order, and a STEP
    /// model reference named after the component.
    pub fn convert_footprint(&self, ee_footprint: &EeFootprint, component_name: &str)
        -> (r: AdFootprint)
        requires
            ee_footprint_pads_fit(*ee_footprint),
        ensures
            r.name@ == ee_footprint.name@,
            r.description@ == ee_footprint.name@ + " - Converted from EasyEDA"@,
            r.pads@.len() == ee_footprint.pads@.len(),
            forall|i: int| 0 <= i < r.pads@.len()
                ==> ad_pad_matches(#[trigger] r.pads@[i], ee_footprint.pads@[i]),
            r.model_3d is Some,
            r.model_3d->Some_0.filename@ == component_name@ + ".step"@,
            r.lines@.len() == 0 && r.arcs@.len() == 0 && r.texts@.len() == 0,
            crate::altium_footprint::ad_footprint_fits(r),
    {
        let mut description = String::new();
        description.append(ee_footprint.name.as_str());
        description.append(" - Converted from EasyEDA");
        let mut pads: Vec<AdPad> = Vec::new();
        let mut i: usize = 0;
        while i < ee_footprint.pads.len()
            invariant
                0 <= i <= ee_footprint.pads@.len(),
                ee_footprint_pads_fit(*ee_footprint),
                pads@.len() == i,
                forall|k: int| 0 <= k < i
                    ==> ad_pad_matches(#[trigger] pads@[k], ee_footprint.pads@[k]),
                forall|k: int| 0 <= k < i
                    ==> crate::altium_footprint::ad_pad_fits(#[trigger] pads@[k]),
            decreases ee_footprint.pads@.len() - i,
        {
            let p = self.convert_pad(&ee_footprint.pads[i]);
            pads.push(p);
            i = i + 1;
        }
        let mut filename = String::new();
        filename.append(component_name);
        filename.append(".step");
        AdFootprint {
            name: ee_footprint.name.clone(),
            description,
            pads,
            lines: Vec::new(),
            arcs: Vec::new(),
            texts: Vec::new(),
            model_3d: Some(Ad3DModel {
                filename,
                rotation_x: 0,
                rotation_y: 0,
                rotation_z: 0,
                offset_z: 0,
            }),
        }
    }
}

/// Millimetres to fixed-point mils.
fn mm_to_mil_exec(v: i64) -> (r: i64)
    requires
        -20000000000 <= v <= 20000000000,
    ensures
        r as int == mm_to_mil(v as int),
        fits_coord(r as int),
{
    let wide: i128 = (v as i128) * 393701;
    let r: i128 = if wide >= 0 { (wide + 5000) / 10000 } else { -((-wide + 5000) / 10000) };
    proof {
        assert(-8000000000000000000 <= wide <= 8000000000000000000) by (nonlinear_arith)
            requires
                wide == (v as int) * 393701,
                -20000000000 <= v as int <= 20000000000;
    }
    r as i64
}

} // verus!
