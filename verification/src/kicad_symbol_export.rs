//! The KiCad symbol emitters.
//!
//! Two dialects: v6 S-expressions and the v5 line-oriented library text.
//! Each `v6_*` / `v5_*` spec function below is the exact text emitted for
//! one element; `v6_symbol` and `v5_symbol` are the whole blocks, and the
//! exporter returns precisely those character sequences.

use vstd::prelude::*;
use vstd::string::*;
use crate::kicad_symbol::{KiSymbol, KiPin, KiRectangle, KiCircle, KiArc, KiPolyline,
    pin_type_v6_lexeme, pin_style_v6_lexeme, pin_type_v5_letter, ki_symbol_fits, ki_pin_fits,
    ki_rect_fits, ki_circle_fits, ki_arc_fits, ki_poly_fits};
use crate::convert::{KicadVersion, px_to_mm_spec, px_to_mil_spec, Converter};
use crate::num::{fix2, fix4, dec_i, fits_coord, fmt_fix2, fmt_fix4, fmt_i64};
use crate::lexer::{cat_map, lemma_cat_map_step, lemma_cat_map_full};
use crate::errors::AppError;

verus! {

/// Truncating remainder by 360, as the host language computes it.
pub open spec fn tmod360(a: int) -> int {
    if a >= 0 { a % 360 } else { -((-a) % 360) }
}

/// Highest pin Y, in millimetres.
pub open spec fn y_high_of(pins: Seq<KiPin>) -> int
    decreases pins.len(),
{
    if pins.len() <= 1 {
        if pins.len() == 0 { 0 } else { px_to_mm_spec(pins[0].pos_y as int) }
    } else {
        let m = y_high_of(pins.drop_last());
        let v = px_to_mm_spec(pins.last().pos_y as int);
        if v > m { v } else { m }
    }
}

/// Lowest pin Y, in millimetres.
pub open spec fn y_low_of(pins: Seq<KiPin>) -> int
    decreases pins.len(),
{
    if pins.len() <= 1 {
        if pins.len() == 0 { 0 } else { px_to_mm_spec(pins[0].pos_y as int) }
    } else {
        let m = y_low_of(pins.drop_last());
        let v = px_to_mm_spec(pins.last().pos_y as int);
        if v < m { v } else { m }
    }
}

/// One v6 property block at height `y`.
#[verifier::opaque]
pub open spec fn v6_prop(name: Seq<char>, value: Seq<char>, id: int, y: int, hidden: bool)
    -> Seq<char> {
    "    (property\n      \""@ + name + "\"\n      \""@ + value + "\"\n      (id "@
        + dec_i(id) + ")\n      (at 0 "@ + fix2(y) + " 0)\n"@
        + (if hidden {
            "      (effects (font (size 1.27 1.27) ) hide)\n"@
        } else {
            "      (effects (font (size 1.27 1.27) ) )\n"@
        }) + "    )\n"@
}

/// The hidden property blocks that follow Reference and Value, each
/// stepping a further 2.54 mm down and taking the next identifier.
pub open spec fn v6_props_tail(s: KiSymbol, yl: int) -> Seq<char> {
    let base: int = 50800;
    let t1: (Seq<char>, int, int) = if s.footprint@.len() > 0 {
        (v6_prop("Footprint"@, s.footprint@, 2, yl - (base + 25400), true), 3, base + 25400)
    } else {
        (Seq::<char>::empty(), 2, base)
    };
    let t2: (Seq<char>, int, int) = if s.datasheet@.len() > 0 {
        (t1.0 + v6_prop("Datasheet"@, s.datasheet@, t1.1, yl - (t1.2 + 25400), true),
            t1.1 + 1, t1.2 + 25400)
    } else {
        t1
    };
    let t3: (Seq<char>, int, int) = if s.manufacturer@.len() > 0 {
        (t2.0 + v6_prop("Manufacturer"@, s.manufacturer@, t2.1, yl - (t2.2 + 25400), true),
            t2.1 + 1, t2.2 + 25400)
    } else {
        t2
    };
    let t4: (Seq<char>, int, int) = if s.lcsc_id@.len() > 0 {
        (t3.0 + v6_prop("LCSC Part"@, s.lcsc_id@, t3.1, yl - (t3.2 + 25400), true),
            t3.1 + 1, t3.2 + 25400)
    } else {
        t3
    };
    if s.jlc_id@.len() > 0 {
        t4.0 + v6_prop("JLC Part"@, s.jlc_id@, t4.1, yl - (t4.2 + 25400), true)
    } else {
        t4.0
    }
}

/// One v6 pin: position and length in millimetres, the rotation turned
/// half way round.
pub open spec fn v6_pin(p: KiPin) -> Seq<char> {
    "      (pin "@ + pin_type_v6_lexeme(p.pin_type) + " "@ + pin_style_v6_lexeme(p.style)
        + "\n        (at "@ + fix2(px_to_mm_spec(p.pos_x as int)) + " "@
        + fix2(px_to_mm_spec(p.pos_y as int)) + " "@ + dec_i(tmod360(180 + p.rotation))
        + ")\n        (length "@ + fix2(px_to_mm_spec(p.length as int))
        + ")\n        (name \""@ + p.name@
        + "\" (effects (font (size 1.27 1.27))))\n        (number \""@ + p.number@
        + "\" (effects (font (size 1.27 1.27))))\n      )\n"@
}

pub open spec fn v6_rect(p: KiRectangle) -> Seq<char> {
    "      (rectangle\n        (start "@ + fix2(px_to_mm_spec(p.x1 as int)) + " "@
        + fix2(px_to_mm_spec(p.y1 as int)) + ")\n        (end "@
        + fix2(px_to_mm_spec(p.x2 as int)) + " "@ + fix2(px_to_mm_spec(p.y2 as int))
        + ")\n        (stroke (width 0) (type default) (color 0 0 0 0))\n        (fill (type "@
        + (if p.fill { "background"@ } else { "none"@ }) + "))\n      )\n"@
}

pub open spec fn v6_circle(p: KiCircle) -> Seq<char> {
    "      (circle\n        (center "@ + fix2(px_to_mm_spec(p.cx as int)) + " "@
        + fix2(px_to_mm_spec(p.cy as int)) + ")\n        (radius "@
        + fix2(px_to_mm_spec(p.radius as int))
        + ")\n        (stroke (width 0) (type default) (color 0 0 0 0))\n        (fill (type none))\n      )\n"@
}

pub open spec fn v6_arc(p: KiArc) -> Seq<char> {
    "    (arc (start "@ + fix4(px_to_mm_spec(p.start_x as int)) + " "@
        + fix4(px_to_mm_spec(p.start_y as int)) + ") (mid "@
        + fix4(px_to_mm_spec(p.mid_x as int)) + " "@ + fix4(px_to_mm_spec(p.mid_y as int))
        + ") (end "@ + fix4(px_to_mm_spec(p.end_x as int)) + " "@
        + fix4(px_to_mm_spec(p.end_y as int)) + ")\n      (stroke (width "@
        + fix4(px_to_mm_spec(p.stroke_width as int))
        + ") (type default))\n      (fill (type none))\n    )\n"@
}

pub open spec fn v6_xy(pt: (i64, i64)) -> Seq<char> {
    "        (xy "@ + fix4(px_to_mm_spec(pt.0 as int)) + " "@
        + fix4(px_to_mm_spec(pt.1 as int)) + ")\n"@
}

pub open spec fn v6_polyline(p: KiPolyline) -> Seq<char> {
    "    (polyline\n      (pts\n"@ + cat_map(p.points@, |pt: (i64, i64)| v6_xy(pt))
        + "      )\n"@ + "      (stroke (width "@ + fix4(px_to_mm_spec(p.stroke_width as int))
        + ") (type default))\n"@ + "      (fill (type "@
        + (if p.fill { "background"@ } else { "none"@ }) + "))\n"@ + "    )\n"@
}

/// The whole v6 symbol block.
pub open spec fn v6_symbol(s: KiSymbol) -> Seq<char> {
    let yh = if s.pins@.len() == 0 { 0 } else { y_high_of(s.pins@) };
    let yl = if s.pins@.len() == 0 { 0 } else { y_low_of(s.pins@) };
    "  (symbol \""@ + s.name@ + "\"\n    (in_bom yes)\n    (on_board yes)\n"@
        + v6_prop("Reference"@, s.reference@, 0, yh + 50800, false)
        + v6_prop("Value"@, s.value@, 1, yl - 50800, false)
        + v6_props_tail(s, yl)
        + "    (symbol \""@ + s.name@ + "_0_1\"\n"@
        + cat_map(s.rectangles@, |p: KiRectangle| v6_rect(p))
        + cat_map(s.circles@, |p: KiCircle| v6_circle(p))
        + cat_map(s.arcs@, |p: KiArc| v6_arc(p))
        + cat_map(s.polylines@, |p: KiPolyline| v6_polyline(p))
        + cat_map(s.pins@, |p: KiPin| v6_pin(p))
        + "    )\n  )\n"@
}

/// The v5 direction letter of a pin rotation.
pub open spec fn v5_direction(rotation: int) -> Seq<char> {
    if rotation == 0 { "R"@ }
    else if rotation == 90 { "U"@ }
    else if rotation == 180 { "L"@ }
    else if rotation == 270 { "D"@ }
    else { "R"@ }
}

pub open spec fn v5_pin(p: KiPin) -> Seq<char> {
    "X "@ + p.name@ + " "@ + p.number@ + " "@ + dec_i(px_to_mil_spec(p.pos_x as int)) + " "@
        + dec_i(px_to_mil_spec(p.pos_y as int)) + " "@ + dec_i(px_to_mil_spec(p.length as int))
        + " "@ + v5_direction(p.rotation as int) + " 50 50 1 1 "@
        + pin_type_v5_letter(p.pin_type) + "\n"@
}

pub open spec fn v5_rect(p: KiRectangle) -> Seq<char> {
    "S "@ + dec_i(px_to_mil_spec(p.x1 as int)) + " "@ + dec_i(px_to_mil_spec(p.y1 as int))
        + " "@ + dec_i(px_to_mil_spec(p.x2 as int)) + " "@ + dec_i(px_to_mil_spec(p.y2 as int))
        + " 1 1 10 "@ + (if p.fill { "F"@ } else { "N"@ }) + "\n"@
}

pub open spec fn v5_circle(p: KiCircle) -> Seq<char> {
    "C "@ + dec_i(px_to_mil_spec(p.cx as int)) + " "@ + dec_i(px_to_mil_spec(p.cy as int))
        + " "@ + dec_i(px_to_mil_spec(p.radius as int)) + " 1 1 10 "@
        + (if p.fill { "F"@ } else { "N"@ }) + "\n"@
}

pub open spec fn v5_point(pt: (i64, i64)) -> Seq<char> {
    " "@ + dec_i(px_to_mil_spec(pt.0 as int)) + " "@ + dec_i(px_to_mil_spec(pt.1 as int))
}

pub open spec fn v5_polyline(p: KiPolyline) -> Seq<char> {
    "P "@ + dec_i(p.points@.len() as int) + " 1 1 10"@
        + cat_map(p.points@, |pt: (i64, i64)| v5_point(pt))
        + " "@ + (if p.fill { "F"@ } else { "N"@ }) + "\n"@
}

/// The whole v5 `DEF … ENDDEF` block.
pub open spec fn v5_symbol(s: KiSymbol) -> Seq<char> {
    "DEF "@ + s.name@ + " "@ + s.reference@ + " 0 40 Y Y 1 F N\n"@
        + "F0 \""@ + s.reference@ + "\" 0 0 50 H V C CNN\n"@
        + "F1 \""@ + s.value@ + "\" 0 -100 50 H V C CNN\n"@
        + "F2 \""@ + s.footprint@ + "\" 0 0 50 H I C CNN\n"@
        + "F3 \""@ + s.datasheet@ + "\" 0 0 50 H I C CNN\n"@
        + "DRAW\n"@
        + cat_map(s.rectangles@, |p: KiRectangle| v5_rect(p))
        + cat_map(s.circles@, |p: KiCircle| v5_circle(p))
        + cat_map(s.polylines@, |p: KiPolyline| v5_polyline(p))
        + cat_map(s.pins@, |p: KiPin| v5_pin(p))
        + "ENDDRAW\nENDDEF\n"@
}

/// The text a symbol is serialized to, per dialect.
pub open spec fn symbol_text(s: KiSymbol, version: KicadVersion) -> Seq<char> {
    match version {
        KicadVersion::V6 => v6_symbol(s),
        KicadVersion::V5 => v5_symbol(s),
    }
}

pub struct SymbolExporter {
    pub version: KicadVersion,
    pub converter: Converter,
}

impl SymbolExporter {
    pub fn new(version: KicadVersion) -> (r: SymbolExporter)
        ensures
            r.version == version,
    {
        SymbolExporter { version, converter: Converter::new(version) }
    }

    /// Serialize the symbol for the selected dialect; the result is
    /// exactly `symbol_text`.
    pub fn export(&self, symbol: &KiSymbol) -> (r: Result<String, AppError>)
        requires
            ki_symbol_fits(*symbol),
        ensures
            r is Ok,
            r->Ok_0@ == symbol_text(*symbol, self.version),
    {
        match self.version {
            KicadVersion::V6 => Ok(self.export_v6(symbol)),
            KicadVersion::V5 => Ok(self.export_v5(symbol)),
        }
    }

    fn calculate_y_bounds(&self, symbol: &KiSymbol) -> (r: (i64, i64))
        requires
            ki_symbol_fits(*symbol),
        ensures
            r.0 as int == if symbol.pins@.len() == 0 { 0int } else { y_high_of(symbol.pins@) },
            r.1 as int == if symbol.pins@.len() == 0 { 0int } else { y_low_of(symbol.pins@) },
            -300000000000 <= r.0 <= 300000000000,
            -300000000000 <= r.1 <= 300000000000,
    {
        if symbol.pins.len() == 0 {
            return (0, 0);
        }
        let mut y_high = self.converter.px_to_mm(symbol.pins[0].pos_y);
        let mut y_low = y_high;
        let mut i: usize = 1;
        proof {
            assert(symbol.pins@.take(1).drop_last() =~= symbol.pins@.take(0));
            assert(symbol.pins@.take(1) =~= seq![symbol.pins@[0]]);
            assert(y_high_of(symbol.pins@.take(1)) == px_to_mm_spec(symbol.pins@[0].pos_y as int));
            assert(y_low_of(symbol.pins@.take(1)) == px_to_mm_spec(symbol.pins@[0].pos_y as int));
        }
        while i < symbol.pins.len()
            invariant
                1 <= i <= symbol.pins@.len(),
                ki_symbol_fits(*symbol),
                y_high as int == y_high_of(symbol.pins@.take(i as int)),
                y_low as int == y_low_of(symbol.pins@.take(i as int)),
                -300000000000 <= y_high <= 300000000000,
                -300000000000 <= y_low <= 300000000000,
            decreases symbol.pins@.len() - i,
        {
            let y = self.converter.px_to_mm(symbol.pins[i].pos_y);
            proof {
                assert(symbol.pins@.take(i + 1).drop_last() =~= symbol.pins@.take(i as int));
                assert(symbol.pins@.take(i + 1).last() == symbol.pins@[i as int]);
            }
            if y > y_high {
                y_high = y;
            }
            if y < y_low {
                y_low = y;
            }
            i = i + 1;
        }
        proof {
            assert(symbol.pins@.take(symbol.pins@.len() as int) =~= symbol.pins@);
        }
        (y_high, y_low)
    }

    fn export_v6(&self, symbol: &KiSymbol) -> (r: String)
        requires
            ki_symbol_fits(*symbol),
        ensures
            r@ == v6_symbol(*symbol),
    {
        let (y_high, y_low) = self.calculate_y_bounds(symbol);
        let mut out = String::new();
        write_v6_head(&mut out, symbol, y_high, y_low);
        write_v6_body(&mut out, symbol);
        proof {
            assert(out@ =~= v6_symbol(*symbol));
        }
        out
    }

    #[verifier::rlimit(100)]
    fn export_v5(&self, symbol: &KiSymbol) -> (r: String)
        requires
            ki_symbol_fits(*symbol),
        ensures
            r@ == v5_symbol(*symbol),
    {
        let mut out = String::new();
        out.append("DEF ");
        out.append(symbol.name.as_str());
        out.append(" ");
        out.append(symbol.reference.as_str());
        out.append(" 0 40 Y Y 1 F N\n");
        out.append("F0 \"");
        out.append(symbol.reference.as_str());
        out.append("\" 0 0 50 H V C CNN\n");
        out.append("F1 \"");
        out.append(symbol.value.as_str());
        out.append("\" 0 -100 50 H V C CNN\n");
        out.append("F2 \"");
        out.append(symbol.footprint.as_str());
        out.append("\" 0 0 50 H I C CNN\n");
        out.append("F3 \"");
        out.append(symbol.datasheet.as_str());
        out.append("\" 0 0 50 H I C CNN\n");
        out.append("DRAW\n");
        let ghost base1 = out@;
        let mut i: usize = 0;
        while i < symbol.rectangles.len()
            invariant
                0 <= i <= symbol.rectangles@.len(),
                ki_symbol_fits(*symbol),
                out@ == base1 + cat_map(symbol.rectangles@.take(i as int),
                    |p: KiRectangle| v5_rect(p)),
            decreases symbol.rectangles@.len() - i,
        {
            write_rect_v5(&mut out, &symbol.rectangles[i]);
            proof {
                lemma_cat_map_step(symbol.rectangles@, |p: KiRectangle| v5_rect(p), i as int);
            }
            i = i + 1;
        }
        proof {
            lemma_cat_map_full(symbol.rectangles@, |p: KiRectangle| v5_rect(p));
        }
        let ghost base2 = out@;
        let mut i: usize = 0;
        while i < symbol.circles.len()
            invariant
                0 <= i <= symbol.circles@.len(),
                ki_symbol_fits(*symbol),
                out@ == base2 + cat_map(symbol.circles@.take(i as int), |p: KiCircle| v5_circle(p)),
            decreases symbol.circles@.len() - i,
        {
            write_circle_v5(&mut out, &symbol.circles[i]);
            proof {
                lemma_cat_map_step(symbol.circles@, |p: KiCircle| v5_circle(p), i as int);
            }
            i = i + 1;
        }
        proof {
            lemma_cat_map_full(symbol.circles@, |p: KiCircle| v5_circle(p));
        }
        let ghost base3 = out@;
        let mut i: usize = 0;
        while i < symbol.polylines.len()
            invariant
                0 <= i <= symbol.polylines@.len(),
                ki_symbol_fits(*symbol),
                out@ == base3 + cat_map(symbol.polylines@.take(i as int),
                    |p: KiPolyline| v5_polyline(p)),
            decreases symbol.polylines@.len() - i,
        {
            write_polyline_v5(&mut out, &symbol.polylines[i]);
            proof {
                lemma_cat_map_step(symbol.polylines@, |p: KiPolyline| v5_polyline(p), i as int);
            }
            i = i + 1;
        }
        proof {
            lemma_cat_map_full(symbol.polylines@, |p: KiPolyline| v5_polyline(p));
        }
        let ghost base4 = out@;
        let mut i: usize = 0;
        while i < symbol.pins.len()
            invariant
                0 <= i <= symbol.pins@.len(),
                ki_symbol_fits(*symbol),
                out@ == base4 + cat_map(symbol.pins@.take(i as int), |p: KiPin| v5_pin(p)),
            decreases symbol.pins@.len() - i,
        {
            write_pin_v5(&mut out, &symbol.pins[i]);
            proof {
                lemma_cat_map_step(symbol.pins@, |p: KiPin| v5_pin(p), i as int);
            }
            i = i + 1;
        }
        proof {
            lemma_cat_map_full(symbol.pins@, |p: KiPin| v5_pin(p));
        }
        out.append("ENDDRAW\nENDDEF\n");
        proof {
            assert(out@ =~= v5_symbol(*symbol));
        }
        out
    }
}

#[verifier::rlimit(100)]
fn write_prop(out: &mut String, name: &str, value: &str, id: i64, y: i64, hidden: bool)
    requires
        0 <= id < 100,
        -400000000000 <= y <= 400000000000,
    ensures
        final(out)@ == old(out)@ + v6_prop(name@, value@, id as int, y as int, hidden),
{
    out.append("    (property\n      \"");
    out.append(name);
    out.append("\"\n      \"");
    out.append(value);
    out.append("\"\n      (id ");
    let ids = fmt_i64(id);
    out.append(ids.as_str());
    out.append(")\n      (at 0 ");
    let ys = fmt_fix2(y);
    out.append(ys.as_str());
    out.append(" 0)\n");
    if hidden {
        out.append("      (effects (font (size 1.27 1.27) ) hide)\n");
    } else {
        out.append("      (effects (font (size 1.27 1.27) ) )\n");
    }
    out.append("    )\n");
    proof {
        reveal(v6_prop);
        assert(out@ =~= old(out)@ + v6_prop(name@, value@, id as int, y as int, hidden));
    }
}

#[verifier::rlimit(100)]
fn write_pin_v6(out: &mut String, p: &KiPin)
    requires
        ki_pin_fits(*p),
    ensures
        final(out)@ == old(out)@ + v6_pin(*p),
{
    out.append("      (pin ");
    out.append(p.pin_type.to_kicad_v6());
    out.append(" ");
    out.append(p.style.to_kicad_v6());
    out.append("\n        (at ");
    let xs = fmt_fix2(crate::convert::Converter::new(KicadVersion::V6).px_to_mm(p.pos_x));
    out.append(xs.as_str());
    out.append(" ");
    let ys = fmt_fix2(crate::convert::Converter::new(KicadVersion::V6).px_to_mm(p.pos_y));
    out.append(ys.as_str());
    out.append(" ");
    let rot: i64 = 180 + p.rotation;
    let orient: i64 = if rot >= 0 { rot % 360 } else { -((-rot) % 360) };
    let os = fmt_i64(orient);
    out.append(os.as_str());
    out.append(")\n        (length ");
    let ls = fmt_fix2(crate::convert::Converter::new(KicadVersion::V6).px_to_mm(p.length));
    out.append(ls.as_str());
    out.append(")\n        (name \"");
    out.append(p.name.as_str());
    out.append("\" (effects (font (size 1.27 1.27))))\n        (number \"");
    out.append(p.number.as_str());
    out.append("\" (effects (font (size 1.27 1.27))))\n      )\n");
    proof {
        assert(out@ =~= old(out)@ + v6_pin(*p));
    }
}

#[verifier::rlimit(100)]
fn write_rect_v6(out: &mut String, p: &KiRectangle)
    requires
        ki_rect_fits(*p),
    ensures
        final(out)@ == old(out)@ + v6_rect(*p),
{
    let c = crate::convert::Converter::new(KicadVersion::V6);
    out.append("      (rectangle\n        (start ");
    let s1 = fmt_fix2(c.px_to_mm(p.x1));
    out.append(s1.as_str());
    out.append(" ");
    let s2 = fmt_fix2(c.px_to_mm(p.y1));
    out.append(s2.as_str());
    out.append(")\n        (end ");
    let s3 = fmt_fix2(c.px_to_mm(p.x2));
    out.append(s3.as_str());
    out.append(" ");
    let s4 = fmt_fix2(c.px_to_mm(p.y2));
    out.append(s4.as_str());
    out.append(")\n        (stroke (width 0) (type default) (color 0 0 0 0))\n        (fill (type ");
    if p.fill {
        out.append("background");
    } else {
        out.append("none");
    }
    out.append("))\n      )\n");
    proof {
        assert(out@ =~= old(out)@ + v6_rect(*p));
    }
}

#[verifier::rlimit(100)]
fn write_circle_v6(out: &mut String, p: &KiCircle)
    requires
        ki_circle_fits(*p),
    ensures
        final(out)@ == old(out)@ + v6_circle(*p),
{
    let c = crate::convert::Converter::new(KicadVersion::V6);
    out.append("      (circle\n        (center ");
    let s1 = fmt_fix2(c.px_to_mm(p.cx));
    out.append(s1.as_str());
    out.append(" ");
    let s2 = fmt_fix2(c.px_to_mm(p.cy));
    out.append(s2.as_str());
    out.append(")\n        (radius ");
    let s3 = fmt_fix2(c.px_to_mm(p.radius));
    out.append(s3.as_str());
    out.append(")\n        (stroke (width 0) (type default) (color 0 0 0 0))\n        (fill (type none))\n      )\n");
    proof {
        assert(out@ =~= old(out)@ + v6_circle(*p));
    }
}

#[verifier::rlimit(100)]
fn write_arc_v6(out: &mut String, p: &KiArc)
    requires
        ki_arc_fits(*p),
    ensures
        final(out)@ == old(out)@ + v6_arc(*p),
{
    let c = crate::convert::Converter::new(KicadVersion::V6);
    out.append("    (arc (start ");
    let s1 = fmt_fix4(c.px_to_mm(p.start_x));
    out.append(s1.as_str());
    out.append(" ");
    let s2 = fmt_fix4(c.px_to_mm(p.start_y));
    out.append(s2.as_str());
    out.append(") (mid ");
    let s3 = fmt_fix4(c.px_to_mm(p.mid_x));
    out.append(s3.as_str());
    out.append(" ");
    let s4 = fmt_fix4(c.px_to_mm(p.mid_y));
    out.append(s4.as_str());
    out.append(") (end ");
    let s5 = fmt_fix4(c.px_to_mm(p.end_x));
    out.append(s5.as_str());
    out.append(" ");
    let s6 = fmt_fix4(c.px_to_mm(p.end_y));
    out.append(s6.as_str());
    out.append(")\n      (stroke (width ");
    let s7 = fmt_fix4(c.px_to_mm(p.stroke_width));
    out.append(s7.as_str());
    out.append(") (type default))\n      (fill (type none))\n    )\n");
    proof {
        assert(out@ =~= old(out)@ + v6_arc(*p));
    }
}

#[verifier::rlimit(100)]
fn write_polyline_v6(out: &mut String, p: &KiPolyline)
    requires
        ki_poly_fits(*p),
    ensures
        final(out)@ == old(out)@ + v6_polyline(*p),
{
    let c = crate::convert::Converter::new(KicadVersion::V6);
    out.append("    (polyline\n      (pts\n");
    let ghost base = out@;
    let mut i: usize = 0;
    while i < p.points.len()
        invariant
            0 <= i <= p.points@.len(),
            ki_poly_fits(*p),
            out@ == base + cat_map(p.points@.take(i as int), |pt: (i64, i64)| v6_xy(pt)),
        decreases p.points@.len() - i,
    {
        let c2 = crate::convert::Converter::new(KicadVersion::V6);
        let (x, y) = p.points[i];
        out.append("        (xy ");
        let s1 = fmt_fix4(c2.px_to_mm(x));
        out.append(s1.as_str());
        out.append(" ");
        let s2 = fmt_fix4(c2.px_to_mm(y));
        out.append(s2.as_str());
        out.append(")\n");
        proof {
            lemma_cat_map_step(p.points@, |pt: (i64, i64)| v6_xy(pt), i as int);
            assert(out@ =~= base + cat_map(p.points@.take(i as int), |pt: (i64, i64)| v6_xy(pt))
                + v6_xy(p.points@[i as int]));
        }
        i = i + 1;
    }
    proof {
        lemma_cat_map_full(p.points@, |pt: (i64, i64)| v6_xy(pt));
    }
    out.append("      )\n");
    out.append("      (stroke (width ");
    let s3 = fmt_fix4(c.px_to_mm(p.stroke_width));
    out.append(s3.as_str());
    out.append(") (type default))\n");
    out.append("      (fill (type ");
    if p.fill {
        out.append("background");
    } else {
        out.append("none");
    }
    out.append("))\n");
    out.append("    )\n");
    proof {
        assert(out@ =~= old(out)@ + v6_polyline(*p));
    }
}

#[verifier::rlimit(100)]
fn write_pin_v5(out: &mut String, p: &KiPin)
    requires
        ki_pin_fits(*p),
    ensures
        final(out)@ == old(out)@ + v5_pin(*p),
{
    let c = crate::convert::Converter::new(KicadVersion::V5);
    out.append("X ");
    out.append(p.name.as_str());
    out.append(" ");
    out.append(p.number.as_str());
    out.append(" ");
    let s1 = fmt_i64(c.px_to_mil(p.pos_x));
    out.append(s1.as_str());
    out.append(" ");
    let s2 = fmt_i64(c.px_to_mil(p.pos_y));
    out.append(s2.as_str());
    out.append(" ");
    let s3 = fmt_i64(c.px_to_mil(p.length));
    out.append(s3.as_str());
    out.append(" ");
    if p.rotation == 0 {
        out.append("R");
    } else if p.rotation == 90 {
        out.append("U");
    } else if p.rotation == 180 {
        out.append("L");
    } else if p.rotation == 270 {
        out.append("D");
    } else {
        out.append("R");
    }
    out.append(" 50 50 1 1 ");
    out.append(p.pin_type.to_kicad_v5());
    out.append("\n");
    proof {
        assert(out@ =~= old(out)@ + v5_pin(*p));
    }
}

#[verifier::rlimit(100)]
fn write_rect_v5(out: &mut String, p: &KiRectangle)
    requires
        ki_rect_fits(*p),
    ensures
        final(out)@ == old(out)@ + v5_rect(*p),
{
    let c = crate::convert::Converter::new(KicadVersion::V5);
    out.append("S ");
    let s1 = fmt_i64(c.px_to_mil(p.x1));
    out.append(s1.as_str());
    out.append(" ");
    let s2 = fmt_i64(c.px_to_mil(p.y1));
    out.append(s2.as_str());
    out.append(" ");
    let s3 = fmt_i64(c.px_to_mil(p.x2));
    out.append(s3.as_str());
    out.append(" ");
    let s4 = fmt_i64(c.px_to_mil(p.y2));
    out.append(s4.as_str());
    out.append(" 1 1 10 ");
    if p.fill {
        out.append("F");
    } else {
        out.append("N");
    }
    out.append("\n");
    proof {
        assert(out@ =~= old(out)@ + v5_rect(*p));
    }
}

#[verifier::rlimit(100)]
fn write_circle_v5(out: &mut String, p: &KiCircle)
    requires
        ki_circle_fits(*p),
    ensures
        final(out)@ == old(out)@ + v5_circle(*p),
{
    let c = crate::convert::Converter::new(KicadVersion::V5);
    out.append("C ");
    let s1 = fmt_i64(c.px_to_mil(p.cx));
    out.append(s1.as_str());
    out.append(" ");
    let s2 = fmt_i64(c.px_to_mil(p.cy));
    out.append(s2.as_str());
    out.append(" ");
    let s3 = fmt_i64(c.px_to_mil(p.radius));
    out.append(s3.as_str());
    out.append(" 1 1 10 ");
    if p.fill {
        out.append("F");
    } else {
        out.append("N");
    }
    out.append("\n");
    proof {
        assert(out@ =~= old(out)@ + v5_circle(*p));
    }
}

#[verifier::rlimit(100)]
fn write_polyline_v5(out: &mut String, p: &KiPolyline)
    requires
        ki_poly_fits(*p),
        p.points@.len() < 1000000000,
    ensures
        final(out)@ == old(out)@ + v5_polyline(*p),
{
    out.append("P ");
    let n = fmt_i64(p.points.len() as i64);
    out.append(n.as_str());
    out.append(" 1 1 10");
    let ghost base = out@;
    let mut i: usize = 0;
    while i < p.points.len()
        invariant
            0 <= i <= p.points@.len(),
            ki_poly_fits(*p),
            out@ == base + cat_map(p.points@.take(i as int), |pt: (i64, i64)| v5_point(pt)),
        decreases p.points@.len() - i,
    {
        let c = crate::convert::Converter::new(KicadVersion::V5);
        let (x, y) = p.points[i];
        out.append(" ");
        let s1 = fmt_i64(c.px_to_mil(x));
        out.append(s1.as_str());
        out.append(" ");
        let s2 = fmt_i64(c.px_to_mil(y));
        out.append(s2.as_str());
        proof {
            lemma_cat_map_step(p.points@, |pt: (i64, i64)| v5_point(pt), i as int);
            assert(out@ =~= base + cat_map(p.points@.take(i as int), |pt: (i64, i64)| v5_point(pt))
                + v5_point(p.points@[i as int]));
        }
        i = i + 1;
    }
    proof {
        lemma_cat_map_full(p.points@, |pt: (i64, i64)| v5_point(pt));
    }
    out.append(" ");
    if p.fill {
        out.append("F");
    } else {
        out.append("N");
    }
    out.append("\n");
    proof {
        assert(out@ =~= old(out)@ + v5_polyline(*p));
    }
}


/// The v6 block head: the symbol line and all property blocks.
#[verifier::rlimit(100)]
fn write_v6_head(out: &mut String, symbol: &KiSymbol, y_high: i64, y_low: i64)
    requires
        -300000000000 <= y_high <= 300000000000,
        -300000000000 <= y_low <= 300000000000,
    ensures
        final(out)@ == old(out)@
            + "  (symbol \""@ + symbol.name@ + "\"\n    (in_bom yes)\n    (on_board yes)\n"@
            + v6_prop("Reference"@, symbol.reference@, 0, y_high + 50800, false)
            + v6_prop("Value"@, symbol.value@, 1, y_low - 50800, false)
            + v6_props_tail(*symbol, y_low as int),
{
    out.append("  (symbol \"");
    out.append(symbol.name.as_str());
    out.append("\"\n    (in_bom yes)\n    (on_board yes)\n");
    write_prop(out, "Reference", symbol.reference.as_str(), 0, y_high + 50800, false);
    write_prop(out, "Value", symbol.value.as_str(), 1, y_low - 50800, false);
    let mut offset: i64 = 50800;
    let mut id: i64 = 2;
    let ghost head = out@;
    if symbol.footprint.as_str().unicode_len() > 0 {
        offset = offset + 25400;
        write_prop(out, "Footprint", symbol.footprint.as_str(), id, y_low - offset, true);
        id = id + 1;
    }
    if symbol.datasheet.as_str().unicode_len() > 0 {
        offset = offset + 25400;
        write_prop(out, "Datasheet", symbol.datasheet.as_str(), id, y_low - offset, true);
        id = id + 1;
    }
    if symbol.manufacturer.as_str().unicode_len() > 0 {
        offset = offset + 25400;
        write_prop(out, "Manufacturer", symbol.manufacturer.as_str(), id, y_low - offset, true);
        id = id + 1;
    }
    if symbol.lcsc_id.as_str().unicode_len() > 0 {
        offset = offset + 25400;
        write_prop(out, "LCSC Part", symbol.lcsc_id.as_str(), id, y_low - offset, true);
        id = id + 1;
    }
    if symbol.jlc_id.as_str().unicode_len() > 0 {
        offset = offset + 25400;
        write_prop(out, "JLC Part", symbol.jlc_id.as_str(), id, y_low - offset, true);
    }
    proof {
        assert(out@ =~= head + v6_props_tail(*symbol, y_low as int));
        assert(out@ =~= old(out)@
            + "  (symbol \""@ + symbol.name@ + "\"\n    (in_bom yes)\n    (on_board yes)\n"@
            + v6_prop("Reference"@, symbol.reference@, 0, y_high as int + 50800, false)
            + v6_prop("Value"@, symbol.value@, 1, y_low as int - 50800, false)
            + v6_props_tail(*symbol, y_low as int));
    }
}

/// The inner `_0_1` block: graphics, then pins.
#[verifier::rlimit(100)]
fn write_v6_body(out: &mut String, symbol: &KiSymbol)
    requires
        ki_symbol_fits(*symbol),
    ensures
        final(out)@ == old(out)@
            + "    (symbol \""@ + symbol.name@ + "_0_1\"\n"@
            + cat_map(symbol.rectangles@, |p: KiRectangle| v6_rect(p))
            + cat_map(symbol.circles@, |p: KiCircle| v6_circle(p))
            + cat_map(symbol.arcs@, |p: KiArc| v6_arc(p))
            + cat_map(symbol.polylines@, |p: KiPolyline| v6_polyline(p))
            + cat_map(symbol.pins@, |p: KiPin| v6_pin(p))
            + "    )\n  )\n"@,
{
    out.append("    (symbol \"");
    out.append(symbol.name.as_str());
    out.append("_0_1\"\n");
    let ghost base1 = out@;
    let mut i: usize = 0;
    while i < symbol.rectangles.len()
        invariant
            0 <= i <= symbol.rectangles@.len(),
            ki_symbol_fits(*symbol),
            out@ == base1 + cat_map(symbol.rectangles@.take(i as int),
                |p: KiRectangle| v6_rect(p)),
        decreases symbol.rectangles@.len() - i,
    {
        write_rect_v6(out, &symbol.rectangles[i]);
        proof {
            lemma_cat_map_step(symbol.rectangles@, |p: KiRectangle| v6_rect(p), i as int);
        }
        i = i + 1;
    }
    proof {
        lemma_cat_map_full(symbol.rectangles@, |p: KiRectangle| v6_rect(p));
    }
    let ghost base2 = out@;
    let mut i: usize = 0;
    while i < symbol.circles.len()
        invariant
            0 <= i <= symbol.circles@.len(),
            ki_symbol_fits(*symbol),
            out@ == base2 + cat_map(symbol.circles@.take(i as int), |p: KiCircle| v6_circle(p)),
        decreases symbol.circles@.len() - i,
    {
        write_circle_v6(out, &symbol.circles[i]);
        proof {
            lemma_cat_map_step(symbol.circles@, |p: KiCircle| v6_circle(p), i as int);
        }
        i = i + 1;
    }
    proof {
        lemma_cat_map_full(symbol.circles@, |p: KiCircle| v6_circle(p));
    }
    let ghost base3 = out@;
    let mut i: usize = 0;
    while i < symbol.arcs.len()
        invariant
            0 <= i <= symbol.arcs@.len(),
            ki_symbol_fits(*symbol),
            out@ == base3 + cat_map(symbol.arcs@.take(i as int), |p: KiArc| v6_arc(p)),
        decreases symbol.arcs@.len() - i,
    {
        write_arc_v6(out, &symbol.arcs[i]);
        proof {
            lemma_cat_map_step(symbol.arcs@, |p: KiArc| v6_arc(p), i as int);
        }
        i = i + 1;
    }
    proof {
        lemma_cat_map_full(symbol.arcs@, |p: KiArc| v6_arc(p));
    }
    let ghost base4 = out@;
    let mut i: usize = 0;
    while i < symbol.polylines.len()
        invariant
            0 <= i <= symbol.polylines@.len(),
            ki_symbol_fits(*symbol),
            out@ == base4 + cat_map(symbol.polylines@.take(i as int),
                |p: KiPolyline| v6_polyline(p)),
        decreases symbol.polylines@.len() - i,
    {
        write_polyline_v6(out, &symbol.polylines[i]);
        proof {
            lemma_cat_map_step(symbol.polylines@, |p: KiPolyline| v6_polyline(p), i as int);
        }
        i = i + 1;
    }
    proof {
        lemma_cat_map_full(symbol.polylines@, |p: KiPolyline| v6_polyline(p));
    }
    let ghost base5 = out@;
    let mut i: usize = 0;
    while i < symbol.pins.len()
        invariant
            0 <= i <= symbol.pins@.len(),
            ki_symbol_fits(*symbol),
            out@ == base5 + cat_map(symbol.pins@.take(i as int), |p: KiPin| v6_pin(p)),
        decreases symbol.pins@.len() - i,
    {
        write_pin_v6(out, &symbol.pins[i]);
        proof {
            lemma_cat_map_step(symbol.pins@, |p: KiPin| v6_pin(p), i as int);
        }
        i = i + 1;
    }
    proof {
        lemma_cat_map_full(symbol.pins@, |p: KiPin| v6_pin(p));
    }
    out.append("    )\n  )\n");
    proof {
        assert(out@ =~= old(out)@
            + "    (symbol \""@ + symbol.name@ + "_0_1\"\n"@
            + cat_map(symbol.rectangles@, |p: KiRectangle| v6_rect(p))
            + cat_map(symbol.circles@, |p: KiCircle| v6_circle(p))
            + cat_map(symbol.arcs@, |p: KiArc| v6_arc(p))
            + cat_map(symbol.polylines@, |p: KiPolyline| v6_polyline(p))
            + cat_map(symbol.pins@, |p: KiPin| v6_pin(p))
            + "    )\n  )\n"@);
    }
}

} // verus!
