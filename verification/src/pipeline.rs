//! The conversion pipeline around one fetched component.
//!
//! Everything here is the decision half of the orchestrator: which
//! artifacts a job produces, the names and paths they go under, the
//! conversion of the decoded vendor model into the KiCad model, and the
//! aggregation of batch results.  The fetch, the file writes and the
//! concurrency live with the caller, which feeds plain values in and
//! carries plain values out.

use vstd::prelude::*;
use vstd::string::*;
use crate::models::{EeSymbol, EePin, EeRectangle, EeCircle, EePolyline, EeFootprint, EePad,
    EeTrack, EeSvgNode};
use crate::kicad_symbol::{KiSymbol, KiPin, KiRectangle, KiCircle, KiPolyline, PinType, PinStyle,
    pin_type_of_code, ki_symbol_fits};
use crate::kicad_footprint::{KiFootprint, KiPad, KiCircle as FpCircle, KiLine, Ki3dModel,
    PadType, PadShape, Drill, pad_shape_of_word, ki_footprint_fits};
use crate::layers::{pad_layers_smd_spec, pad_layers_tht_spec, map_pad_layers_smd,
    map_pad_layers_tht};
use crate::num::{fits_coord, parse_fixed_spec, parse_fixed};
use crate::lexer::{ws_split_from, split_whitespace_tokens};
use crate::convert::flip_y_spec;

verus! {

/// The per-job options bundle.
pub struct ConversionOptions {
    pub output_dir: String,
    pub convert_symbol: bool,
    pub convert_footprint: bool,
    pub convert_3d: bool,
    pub kicad_v5: bool,
    pub project_relative: bool,
    pub overwrite: bool,
    pub target_kicad: bool,
    pub target_altium: bool,
}

impl Default for ConversionOptions {
    /// Convert everything into `./output`, v6, no overwriting, KiCad.
    fn default() -> (r: ConversionOptions)
        ensures
            r.output_dir@ == "./output"@,
            r.convert_symbol && r.convert_footprint && r.convert_3d,
            !r.kicad_v5 && !r.project_relative && !r.overwrite,
            r.target_kicad && !r.target_altium,
    {
        let mut output_dir = String::new();
        output_dir.append("./output");
        ConversionOptions {
            output_dir,
            convert_symbol: true,
            convert_footprint: true,
            convert_3d: true,
            kicad_v5: false,
            project_relative: false,
            overwrite: false,
            target_kicad: true,
            target_altium: false,
        }
    }
}

/// The outcome of one conversion job.
pub struct ConversionResult {
    pub lcsc_id: String,
    pub success: bool,
    pub message: String,
    pub component_name: Option<String>,
    pub files_created: Vec<String>,
}

/// The aggregate outcome of a batch.
pub struct BatchResult {
    pub total: usize,
    pub succeeded: usize,
    pub failed: usize,
    pub results: Vec<ConversionResult>,
}

/// One progress notification.
pub struct ProgressUpdate {
    pub current: usize,
    pub total: usize,
    pub lcsc_id: String,
    pub status: String,
}

/// One row of the conversion history.
pub struct HistoryEntry {
    pub id: i64,
    pub lcsc_id: String,
    pub component_name: Option<String>,
    pub success: bool,
    pub timestamp: String,
    pub output_dir: String,
}

/// The 3D-model descriptor found in the footprint stream.
pub struct Model3dInfo {
    pub uuid: String,
    pub title: String,
}

/// One fetched component record: identifier, title, the two shape streams
/// with their bounding-box origins, the optional 3D model, and metadata.
pub struct ComponentData {
    pub lcsc_id: String,
    pub title: String,
    pub data_str: Vec<String>,
    pub bbox_x: i64,
    pub bbox_y: i64,
    pub package_detail: Vec<String>,
    pub package_bbox_x: i64,
    pub package_bbox_y: i64,
    pub model_3d: Option<Model3dInfo>,
    pub manufacturer: String,
    pub datasheet: String,
    pub jlc_id: String,
}

/// A file-name character that is kept: alphanumeric, dash or underscore.
pub open spec fn name_char_ok(c: char) -> bool {
    ('0' <= c && c <= '9') || ('a' <= c && c <= 'z') || ('A' <= c && c <= 'Z')
        || c == '-' || c == '_'
}

/// The sanitized body: kept characters verbatim, each run of other
/// characters collapsed to one underscore.
pub open spec fn san_from(s: Seq<char>, i: int, prev_bad: bool) -> Seq<char>
    decreases s.len() - i when 0 <= i
{
    if i >= s.len() {
        Seq::<char>::empty()
    } else if name_char_ok(s[i]) {
        seq![s[i]] + san_from(s, i + 1, false)
    } else if prev_bad {
        san_from(s, i + 1, true)
    } else {
        seq!['_'] + san_from(s, i + 1, true)
    }
}

/// Position after the leading underscores.
pub open spec fn lstrip_underscore(s: Seq<char>) -> int {
    crate::svg::run_end(s, 0, |c: char| c == '_')
}

/// Position before the trailing underscores.
pub open spec fn rstrip_underscore(s: Seq<char>) -> int
    decreases s.len(),
{
    if s.len() > 0 && s.last() == '_' {
        rstrip_underscore(s.drop_last())
    } else {
        s.len() as int
    }
}

/// The file-system-safe component name: bad runs collapsed to `_`, then
/// underscores trimmed from both ends.
pub open spec fn sanitize_spec(s: Seq<char>) -> Seq<char> {
    let body = san_from(s, 0, false);
    let a = lstrip_underscore(body);
    if a == body.len() {
        Seq::<char>::empty()
    } else {
        body.subrange(a, rstrip_underscore(body))
    }
}

fn name_char_ok_exec(c: char) -> (r: bool)
    ensures
        r == name_char_ok(c),
{
    let u = c as u32;
    (48 <= u && u <= 57) || (97 <= u && u <= 122) || (65 <= u && u <= 90)
        || c == '-' || c == '_'
}

/// Sanitize a component title for the file system; exactly
/// `sanitize_spec`.
pub fn sanitize_component_name(name: &str) -> (r: String)
    ensures
        r@ == sanitize_spec(name@),
{
    let n = name.unicode_len();
    let mut body = String::new();
    let mut i: usize = 0;
    let mut prev_bad = false;
    proof {
        reveal_strlit("_");
        assert(body@ + san_from(name@, 0, false) =~= san_from(name@, 0, false));
    }
    while i < n
        invariant
            0 <= i <= n,
            n == name@.len(),
            san_from(name@, 0, false) == body@ + san_from(name@, i as int, prev_bad),
        decreases n - i,
    {
        let c = name.get_char(i);
        if name_char_ok_exec(c) {
            let piece = name.substring_char(i, i + 1);
            proof {
                assert(piece@ =~= seq![name@[i as int]]);
            }
            body.append(piece);
            proof {
                assert(body@ + san_from(name@, i + 1, false)
                    =~= old_body_plus(body@, name@, i as int, prev_bad));
            }
            prev_bad = false;
        } else if prev_bad {
            proof {
                assert(body@ + san_from(name@, i + 1, true)
                    =~= body@ + san_from(name@, i as int, prev_bad));
            }
        } else {
            proof {
                reveal_strlit("_");
            }
            body.append("_");
            proof {
                assert(body@ + san_from(name@, i + 1, true)
                    =~= old_body_plus(body@, name@, i as int, prev_bad));
            }
            prev_bad = true;
        }
        i = i + 1;
    }
    proof {
        assert(body@ + san_from(name@, n as int, prev_bad) =~= body@);
        assert(body@ == san_from(name@, 0, false));
    }
    // trim underscores from both ends
    let m = body.as_str().unicode_len();
    let mut a: usize = 0;
    while a < m && body.as_str().get_char(a) == '_'
        invariant
            0 <= a <= m,
            m == body@.len(),
            forall|k: int| 0 <= k < a ==> body@[k] == '_',
        decreases m - a,
    {
        a = a + 1;
    }
    proof {
        crate::svg::lemma_run_end_unique(body@, 0, a as int, |c: char| c == '_');
    }
    if a == m {
        let r = String::new();
        proof {
            assert(r@ =~= sanitize_spec(name@));
        }
        return r;
    }
    let mut b: usize = m;
    proof {
        assert(body@.take(m as int) =~= body@);
    }
    while b > 0 && body.as_str().get_char(b - 1) == '_'
        invariant
            0 <= b <= m,
            m == body@.len(),
            rstrip_underscore(body@) == rstrip_underscore(body@.take(b as int)),
        decreases b,
    {
        proof {
            assert(body@.take(b as int).last() == body@[b - 1]);
            assert(body@.take(b as int).drop_last() =~= body@.take(b - 1));
        }
        b = b - 1;
    }
    proof {
        if b > 0 {
            assert(body@.take(b as int).last() == body@[b - 1]);
        }
        assert(rstrip_underscore(body@.take(b as int)) == b);
        assert(!(body@[a as int] == '_'));
        if b <= a {
            lemma_rstrip_under(body@);
            assert(body@[a as int] == '_');
        }
    }
    let r = body.as_str().substring_char(a, b).to_owned();
    proof {
        assert(r@ =~= sanitize_spec(name@));
    }
    r
}

/// The suffix shape the invariant tracks after one step.
spec fn old_body_plus(body: Seq<char>, s: Seq<char>, i: int, prev_bad: bool) -> Seq<char> {
    body.take(body.len() - (if name_char_ok(s[i]) { 1int } else { 1int }))
        + san_from(s, i, prev_bad)
}

proof fn lemma_rstrip_under(s: Seq<char>)
    ensures
        0 <= rstrip_underscore(s) <= s.len(),
        forall|k: int| rstrip_underscore(s) <= k < s.len() ==> s[k] == '_',
    decreases s.len(),
{
    if s.len() > 0 && s.last() == '_' {
        lemma_rstrip_under(s.drop_last());
        assert forall|k: int| rstrip_underscore(s) <= k < s.len() implies s[k] == '_' by {
            if k < s.len() - 1 {
                assert(s.drop_last()[k] == s[k]);
            }
        }
    }
}

// --- the vendor-to-KiCad conversion ---

/// How a converted pin relates to its vendor pin: the Y axis flipped, the
/// electrical letter decoded, the style from the dot and clock marks.
pub open spec fn ki_pin_matches(k: KiPin, e: EePin) -> bool {
    &&& k.number@ == e.number@
    &&& k.name@ == e.name@
    &&& k.pin_type == pin_type_of_code(e.electric_type@)
    &&& k.style == (if e.dot { PinStyle::Inverted }
        else if e.clock { PinStyle::Clock } else { PinStyle::Line })
    &&& k.pos_x == e.x
    &&& k.pos_y as int == flip_y_spec(e.y as int)
    &&& k.rotation == e.rotation
    &&& k.length == e.length
}

pub open spec fn ki_rect_matches(k: KiRectangle, e: EeRectangle) -> bool {
    &&& k.x1 == e.x
    &&& k.y1 as int == flip_y_spec(e.y as int)
    &&& k.x2 as int == e.x + e.width
    &&& k.y2 as int == flip_y_spec(e.y + e.height)
    &&& k.stroke_width == e.stroke_width
    &&& k.fill == e.fill
}

pub open spec fn ki_circle_matches(k: KiCircle, e: EeCircle) -> bool {
    &&& k.cx == e.cx
    &&& k.cy as int == flip_y_spec(e.cy as int)
    &&& k.radius == e.radius
    &&& k.stroke_width == e.stroke_width
    &&& k.fill == e.fill
}

pub open spec fn ki_poly_matches(k: KiPolyline, e: EePolyline) -> bool {
    &&& k.points@.len() == e.points@.len()
    &&& forall|j: int| 0 <= j < k.points@.len()
        ==> (#[trigger] k.points@[j]).0 == e.points@[j].0
            && k.points@[j].1 as int == flip_y_spec(e.points@[j].1 as int)
    &&& k.stroke_width == e.stroke_width
    &&& !k.fill
}

/// Vendor symbol values within half the coordinate bound, so flips and
/// corner sums stay on the grid.
pub open spec fn ee_symbol_small(s: EeSymbol) -> bool {
    &&& forall|i: int| 0 <= i < s.pins@.len()
        ==> small((#[trigger] s.pins@[i]).x as int) && small(s.pins@[i].y as int)
            && small(s.pins@[i].length as int)
            && -100000000 < s.pins@[i].rotation < 100000000
    &&& forall|i: int| 0 <= i < s.rectangles@.len()
        ==> small((#[trigger] s.rectangles@[i]).x as int)
            && small(s.rectangles@[i].y as int)
            && small(s.rectangles@[i].width as int)
            && small(s.rectangles@[i].height as int)
            && small(s.rectangles@[i].stroke_width as int)
    &&& forall|i: int| 0 <= i < s.circles@.len()
        ==> small((#[trigger] s.circles@[i]).cx as int) && small(s.circles@[i].cy as int)
            && small(s.circles@[i].radius as int) && small(s.circles@[i].stroke_width as int)
    &&& forall|i: int| 0 <= i < s.polylines@.len()
        ==> poly_small(#[trigger] s.polylines@[i])
}

pub open spec fn small(v: int) -> bool {
    -500000000000 <= v <= 500000000000
}

pub open spec fn poly_small(p: EePolyline) -> bool {
    &&& forall|j: int| 0 <= j < p.points@.len()
        ==> small((#[trigger] p.points@[j]).0 as int) && small(p.points@[j].1 as int)
    &&& small(p.stroke_width as int)
    &&& p.points@.len() < 1000000000
}

/// Convert the decoded vendor symbol to the KiCad glyph: pins, rectangles,
/// circles and polylines mapped in order with the Y axis flipped; arcs are
/// not carried over; the titles and metadata become the properties.
pub fn convert_ee_symbol_to_ki(ee_symbol: &EeSymbol, component_name: &str, manufacturer: &str,
    datasheet: &str, lcsc_id: &str, jlc_id: &str) -> (r: KiSymbol)
    requires
        ee_symbol_small(*ee_symbol),
    ensures
        r.name@ == component_name@,
        r.reference@ == ee_symbol.prefix@,
        r.value@ == component_name@,
        r.footprint@ == Seq::<char>::empty(),
        r.datasheet@ == datasheet@,
        r.manufacturer@ == manufacturer@,
        r.lcsc_id@ == lcsc_id@,
        r.jlc_id@ == jlc_id@,
        r.pins@.len() == ee_symbol.pins@.len(),
        forall|i: int| 0 <= i < r.pins@.len()
            ==> ki_pin_matches(#[trigger] r.pins@[i], ee_symbol.pins@[i]),
        r.rectangles@.len() == ee_symbol.rectangles@.len(),
        forall|i: int| 0 <= i < r.rectangles@.len()
            ==> ki_rect_matches(#[trigger] r.rectangles@[i], ee_symbol.rectangles@[i]),
        r.circles@.len() == ee_symbol.circles@.len(),
        forall|i: int| 0 <= i < r.circles@.len()
            ==> ki_circle_matches(#[trigger] r.circles@[i], ee_symbol.circles@[i]),
        r.polylines@.len() == ee_symbol.polylines@.len(),
        forall|i: int| 0 <= i < r.polylines@.len()
            ==> ki_poly_matches(#[trigger] r.polylines@[i], ee_symbol.polylines@[i]),
        r.arcs@.len() == 0,
        ki_symbol_fits(r),
{
    let mut pins: Vec<KiPin> = Vec::new();
    let mut i: usize = 0;
    while i < ee_symbol.pins.len()
        invariant
            0 <= i <= ee_symbol.pins@.len(),
            ee_symbol_small(*ee_symbol),
            pins@.len() == i,
            forall|k: int| 0 <= k < i
                ==> ki_pin_matches(#[trigger] pins@[k], ee_symbol.pins@[k]),
            forall|k: int| 0 <= k < i
                ==> crate::kicad_symbol::ki_pin_fits(#[trigger] pins@[k]),
        decreases ee_symbol.pins@.len() - i,
    {
        let e = &ee_symbol.pins[i];
        let pin_type = PinType::from_easyeda(e.electric_type.as_str());
        let style = if e.dot { PinStyle::Inverted }
        else if e.clock { PinStyle::Clock }
        else { PinStyle::Line };
        pins.push(KiPin {
            number: e.number.clone(),
            name: e.name.clone(),
            pin_type,
            style,
            pos_x: e.x,
            pos_y: -e.y,
            rotation: e.rotation,
            length: e.length,
        });
        i = i + 1;
    }
    let mut rectangles: Vec<KiRectangle> = Vec::new();
    let mut i: usize = 0;
    while i < ee_symbol.rectangles.len()
        invariant
            0 <= i <= ee_symbol.rectangles@.len(),
            ee_symbol_small(*ee_symbol),
            rectangles@.len() == i,
            forall|k: int| 0 <= k < i
                ==> ki_rect_matches(#[trigger] rectangles@[k], ee_symbol.rectangles@[k]),
            forall|k: int| 0 <= k < i
                ==> crate::kicad_symbol::ki_rect_fits(#[trigger] rectangles@[k]),
        decreases ee_symbol.rectangles@.len() - i,
    {
        let e = &ee_symbol.rectangles[i];
        rectangles.push(KiRectangle {
            x1: e.x,
            y1: -e.y,
            x2: e.x + e.width,
            y2: -(e.y + e.height),
            stroke_width: e.stroke_width,
            fill: e.fill,
        });
        i = i + 1;
    }
    let mut circles: Vec<KiCircle> = Vec::new();
    let mut i: usize = 0;
    while i < ee_symbol.circles.len()
        invariant
            0 <= i <= ee_symbol.circles@.len(),
            ee_symbol_small(*ee_symbol),
            circles@.len() == i,
            forall|k: int| 0 <= k < i
                ==> ki_circle_matches(#[trigger] circles@[k], ee_symbol.circles@[k]),
            forall|k: int| 0 <= k < i
                ==> crate::kicad_symbol::ki_circle_fits(#[trigger] circles@[k]),
        decreases ee_symbol.circles@.len() - i,
    {
        let e = &ee_symbol.circles[i];
        circles.push(KiCircle {
            cx: e.cx,
            cy: -e.cy,
            radius: e.radius,
            stroke_width: e.stroke_width,
            fill: e.fill,
        });
        i = i + 1;
    }
    let mut polylines: Vec<KiPolyline> = Vec::new();
    let mut i: usize = 0;
    while i < ee_symbol.polylines.len()
        invariant
            0 <= i <= ee_symbol.polylines@.len(),
            ee_symbol_small(*ee_symbol),
            polylines@.len() == i,
            forall|k: int| 0 <= k < i
                ==> ki_poly_matches(#[trigger] polylines@[k], ee_symbol.polylines@[k]),
            forall|k: int| 0 <= k < i
                ==> crate::kicad_symbol::ki_poly_fits(#[trigger] polylines@[k]),
        decreases ee_symbol.polylines@.len() - i,
    {
        let e = &ee_symbol.polylines[i];
        let mut points: Vec<(i64, i64)> = Vec::new();
        let mut j: usize = 0;
        while j < e.points.len()
            invariant
                0 <= j <= e.points@.len(),
                poly_small(*e),
                points@.len() == j,
                forall|k: int| 0 <= k < j
                    ==> (#[trigger] points@[k]).0 == e.points@[k].0
                        && points@[k].1 as int == flip_y_spec(e.points@[k].1 as int)
                        && fits_coord(points@[k].0 as int) && fits_coord(points@[k].1 as int),
            decreases e.points@.len() - j,
        {
            let (x, y) = e.points[j];
            points.push((x, -y));
            j = j + 1;
        }
        polylines.push(KiPolyline { points, stroke_width: e.stroke_width, fill: false });
        i = i + 1;
    }
    KiSymbol {
        name: component_name.to_owned(),
        reference: ee_symbol.prefix.clone(),
        value: component_name.to_owned(),
        footprint: String::new(),
        datasheet: datasheet.to_owned(),
        manufacturer: manufacturer.to_owned(),
        lcsc_id: lcsc_id.to_owned(),
        jlc_id: jlc_id.to_owned(),
        pins,
        rectangles,
        circles,
        arcs: Vec::new(),
        polylines,
    }
}


/// The numbers among a token list, bad tokens skipped.
pub open spec fn nums_from(toks: Seq<Seq<char>>, i: int) -> Seq<int>
    decreases toks.len() - i when 0 <= i
{
    if i >= toks.len() {
        Seq::<int>::empty()
    } else {
        match parse_fixed_spec(toks[i]) {
            Some(v) => seq![v] + nums_from(toks, i + 1),
            None => nums_from(toks, i + 1),
        }
    }
}

/// The silkscreen line a track yields: its first four valid numbers and
/// its stroke width; nothing for a track with fewer.
pub open spec fn track_line(t: EeTrack) -> Option<(int, int, int, int, int)> {
    let nums = nums_from(ws_split_from(t.points@, 0), 0);
    if nums.len() >= 4 {
        Some((nums[0], nums[1], nums[2], nums[3], t.stroke_width as int))
    } else {
        None
    }
}

/// The lines of the first `i` tracks, in order.
pub open spec fn lines_of(tracks: Seq<EeTrack>, i: int) -> Seq<(int, int, int, int, int)>
    decreases i,
{
    if i <= 0 {
        Seq::<(int, int, int, int, int)>::empty()
    } else {
        lines_of(tracks, i - 1) + (match track_line(tracks[i - 1]) {
            Some(t) => seq![t],
            None => Seq::<(int, int, int, int, int)>::empty(),
        })
    }
}

pub open spec fn line_val(k: KiLine) -> (int, int, int, int, int) {
    (k.start_x as int, k.start_y as int, k.end_x as int, k.end_y as int, k.width as int)
}

/// How a converted pad relates to its vendor pad: a drilled pad is
/// through-hole with copper and mask on every layer, a plain one is
/// surface mounted with its layer's copper, paste and mask; an oval drill
/// carries the secondary axis.
pub open spec fn ki_pad_matches(k: KiPad, e: EePad) -> bool {
    &&& k.number@ == e.number@
    &&& k.pad_type == (if e.hole_radius is Some { PadType::ThroughHole } else { PadType::Smd })
    &&& k.shape == pad_shape_of_word(e.shape@)
    &&& k.pos_x == e.x
    &&& k.pos_y == e.y
    &&& k.size_x == e.width
    &&& k.size_y == e.height
    &&& k.rotation == e.rotation
    &&& (match e.hole_radius {
        Some(hr) => k.drill is Some && k.drill->Some_0.diameter as int == 2 * hr
            && (match e.hole_length {
                Some(hl) => k.drill->Some_0.width == Some(hl),
                None => k.drill->Some_0.width is None,
            }),
        None => k.drill is None,
    })
    &&& k.layers.deep_view() == (if e.hole_radius is Some {
        pad_layers_tht_spec(e.layer_id as int)
    } else {
        pad_layers_smd_spec(e.layer_id as int)
    })
    &&& k.polygon is None
}

pub open spec fn ki_fp_circle_matches(k: FpCircle, e: EeCircle) -> bool {
    &&& k.center_x == e.cx
    &&& k.center_y == e.cy
    &&& k.end_x as int == e.cx + e.radius
    &&& k.end_y == e.cy
    &&& k.width == e.stroke_width
    &&& k.layer@ == "F.SilkS"@
    &&& k.fill == e.fill
}

/// Vendor footprint values within half the coordinate bound.
pub open spec fn ee_footprint_small(f: EeFootprint) -> bool {
    &&& forall|i: int| 0 <= i < f.pads@.len()
        ==> small((#[trigger] f.pads@[i]).x as int) && small(f.pads@[i].y as int)
            && small(f.pads@[i].width as int) && small(f.pads@[i].height as int)
            && small(f.pads@[i].rotation as int)
            && (match f.pads@[i].hole_radius {
                Some(r) => 0 <= r && small(r as int),
                None => true,
            })
            && (match f.pads@[i].hole_length {
                Some(l) => 0 <= l && small(l as int),
                None => true,
            })
    &&& forall|i: int| 0 <= i < f.circles@.len()
        ==> small((#[trigger] f.circles@[i]).cx as int) && small(f.circles@[i].cy as int)
            && small(f.circles@[i].radius as int) && small(f.circles@[i].stroke_width as int)
    &&& forall|i: int| 0 <= i < f.tracks@.len()
        ==> small((#[trigger] f.tracks@[i]).stroke_width as int)
}

/// Convert the decoded vendor footprint to the KiCad module: pads with
/// their drills and layer sets, tracks reduced to silkscreen lines,
/// circles with their radius point, and the VRML model reference.
pub fn convert_ee_footprint_to_ki(ee_footprint: &EeFootprint, component_name: &str)
    -> (r: KiFootprint)
    requires
        ee_footprint_small(*ee_footprint),
    ensures
        r.name@ == component_name@,
        r.pads@.len() == ee_footprint.pads@.len(),
        forall|i: int| 0 <= i < r.pads@.len()
            ==> ki_pad_matches(#[trigger] r.pads@[i], ee_footprint.pads@[i]),
        r.lines@.map_values(|k: KiLine| line_val(k))
            == lines_of(ee_footprint.tracks@, ee_footprint.tracks@.len() as int),
        forall|i: int| 0 <= i < r.lines@.len() ==> (#[trigger] r.lines@[i]).layer@ == "F.SilkS"@,
        r.circles@.len() == ee_footprint.circles@.len(),
        forall|i: int| 0 <= i < r.circles@.len()
            ==> ki_fp_circle_matches(#[trigger] r.circles@[i], ee_footprint.circles@[i]),
        r.tracks@.len() == 0 && r.arcs@.len() == 0 && r.texts@.len() == 0,
        r.model_3d is Some,
        r.model_3d->Some_0.path@ == "${KIPRJMOD}/nlbn.3dshapes/"@ + component_name@ + ".wrl"@,
        r.model_3d->Some_0.offset == (0i64, 0i64, 0i64),
        r.model_3d->Some_0.scale == (10000i64, 10000i64, 10000i64),
        r.model_3d->Some_0.rotate == (0i64, 0i64, 0i64),
        ki_footprint_fits(r),
{
    let mut pads: Vec<KiPad> = Vec::new();
    let mut i: usize = 0;
    while i < ee_footprint.pads.len()
        invariant
            0 <= i <= ee_footprint.pads@.len(),
            ee_footprint_small(*ee_footprint),
            pads@.len() == i,
            forall|k: int| 0 <= k < i
                ==> ki_pad_matches(#[trigger] pads@[k], ee_footprint.pads@[k]),
            forall|k: int| 0 <= k < i
                ==> crate::kicad_footprint::fp_pad_fits(#[trigger] pads@[k]),
        decreases ee_footprint.pads@.len() - i,
    {
        let e = &ee_footprint.pads[i];
        let through = e.hole_radius.is_some();
        let pad_type = if through { PadType::ThroughHole } else { PadType::Smd };
        let shape = PadShape::from_easyeda(e.shape.as_str());
        let drill: Option<Drill> = match e.hole_radius {
            Some(hr) => Some(Drill {
                diameter: 2 * hr,
                width: e.hole_length,
                offset_x: 0,
                offset_y: 0,
            }),
            None => None,
        };
        let layers = if through {
            map_pad_layers_tht(e.layer_id)
        } else {
            map_pad_layers_smd(e.layer_id)
        };
        pads.push(KiPad {
            number: e.number.clone(),
            pad_type,
            shape,
            pos_x: e.x,
            pos_y: e.y,
            size_x: e.width,
            size_y: e.height,
            rotation: e.rotation,
            layers,
            drill,
            polygon: None,
        });
        i = i + 1;
    }
    let mut lines: Vec<KiLine> = Vec::new();
    let mut i: usize = 0;
    proof {
        assert(lines@.map_values(|k: KiLine| line_val(k)) =~= lines_of(ee_footprint.tracks@, 0));
    }
    while i < ee_footprint.tracks.len()
        invariant
            0 <= i <= ee_footprint.tracks@.len(),
            ee_footprint_small(*ee_footprint),
            lines@.map_values(|k: KiLine| line_val(k)) == lines_of(ee_footprint.tracks@, i as int),
            forall|k: int| 0 <= k < lines@.len()
                ==> (#[trigger] lines@[k]).layer@ == "F.SilkS"@,
            forall|k: int| 0 <= k < lines@.len()
                ==> crate::kicad_footprint::fp_line_fits(#[trigger] lines@[k]),
        decreases ee_footprint.tracks@.len() - i,
    {
        let t = &ee_footprint.tracks[i];
        let nums = first_numbers(t.points.as_str());
        proof {
            assert(lines_of(ee_footprint.tracks@, i + 1) == lines_of(ee_footprint.tracks@, i as int)
                + (match track_line(ee_footprint.tracks@[i as int]) {
                    Some(tt) => seq![tt],
                    None => Seq::<(int, int, int, int, int)>::empty(),
                }));
        }
        if nums.len() >= 4 {
            let ghost old_lines = lines@;
            lines.push(KiLine {
                start_x: nums[0],
                start_y: nums[1],
                end_x: nums[2],
                end_y: nums[3],
                width: t.stroke_width,
                layer: silks_name(),
            });
            proof {
                let f = |k: KiLine| line_val(k);
                let f2 = |v: i64| v as int;
                let all = nums_from(
                    ws_split_from(ee_footprint.tracks@[i as int].points@, 0), 0);
                assert(lines@.map_values(f)
                    =~= old_lines.map_values(f).push(line_val(lines@.last())));
                assert(all.len() >= 4) by {
                    if all.len() < 4 {
                        assert(nums@.map_values(f2) == all);
                        assert(nums@.map_values(f2).len() == nums@.len());
                    }
                }
                assert(nums@.map_values(f2) == all.take(nums@.len() as int));
                assert forall|k: int| 0 <= k < 4 implies all[k] == nums@[k] as int by {
                    assert(all.take(nums@.len() as int)[k] == all[k]);
                    assert(nums@.map_values(f2)[k] == f2(nums@[k]));
                }
                assert(line_val(lines@.last())
                    == track_line(ee_footprint.tracks@[i as int])->Some_0);
                assert(lines@.map_values(f)
                    =~= lines_of(ee_footprint.tracks@, i as int)
                        + seq![track_line(ee_footprint.tracks@[i as int])->Some_0]);
            }
        }
        i = i + 1;
    }
    let mut circles: Vec<FpCircle> = Vec::new();
    let mut i: usize = 0;
    while i < ee_footprint.circles.len()
        invariant
            0 <= i <= ee_footprint.circles@.len(),
            ee_footprint_small(*ee_footprint),
            circles@.len() == i,
            forall|k: int| 0 <= k < i
                ==> ki_fp_circle_matches(#[trigger] circles@[k], ee_footprint.circles@[k]),
            forall|k: int| 0 <= k < i
                ==> crate::kicad_footprint::fp_circle_fits(#[trigger] circles@[k]),
        decreases ee_footprint.circles@.len() - i,
    {
        let e = &ee_footprint.circles[i];
        circles.push(FpCircle {
            center_x: e.cx,
            center_y: e.cy,
            end_x: e.cx + e.radius,
            end_y: e.cy,
            width: e.stroke_width,
            layer: silks_name(),
            fill: e.fill,
        });
        i = i + 1;
    }
    let mut path = String::new();
    path.append("${KIPRJMOD}/nlbn.3dshapes/");
    path.append(component_name);
    path.append(".wrl");
    proof {
        assert(path@ =~= "${KIPRJMOD}/nlbn.3dshapes/"@ + component_name@ + ".wrl"@);
    }
    KiFootprint {
        name: component_name.to_owned(),
        pads,
        tracks: Vec::new(),
        circles,
        arcs: Vec::new(),
        texts: Vec::new(),
        lines,
        model_3d: Some(Ki3dModel {
            path,
            offset: (0, 0, 0),
            scale: (10000, 10000, 10000),
            rotate: (0, 0, 0),
        }),
    }
}

fn silks_name() -> (r: String)
    ensures
        r@ == "F.SilkS"@,
{
    let mut s = String::new();
    s.append("F.SilkS");
    proof {
        assert(s@ =~= "F.SilkS"@);
    }
    s
}

/// The first four valid numbers of a point list, or fewer when the list
/// has fewer.
fn first_numbers(points: &str) -> (r: Vec<i64>)
    ensures
        ({
            let all = nums_from(ws_split_from(points@, 0), 0);
            &&& r@.len() <= 4
            &&& (all.len() >= 4 ==> r@.len() == 4
                && r@.map_values(|v: i64| v as int) == all.take(r@.len() as int))
            &&& (all.len() < 4 ==> r@.map_values(|v: i64| v as int) == all)
            &&& forall|k: int| 0 <= k < r@.len() ==> fits_coord((#[trigger] r@[k]) as int)
        }),
{
    let toks = split_whitespace_tokens(points);
    let ghost tv = toks.deep_view();
    let mut out: Vec<i64> = Vec::new();
    let mut i: usize = 0;
    proof {
        assert(out@.map_values(|v: i64| v as int) + nums_from(tv, 0) =~= nums_from(tv, 0));
    }
    while i < toks.len() && out.len() < 4
        invariant
            0 <= i <= toks@.len(),
            tv == toks.deep_view(),
            tv == ws_split_from(points@, 0),
            tv.len() == toks@.len(),
            out@.len() <= 4,
            nums_from(tv, 0) == out@.map_values(|v: i64| v as int) + nums_from(tv, i as int),
            forall|k: int| 0 <= k < out@.len() ==> fits_coord((#[trigger] out@[k]) as int),
        decreases toks@.len() - i,
    {
        proof {
            assert(tv[i as int] == toks@[i as int]@);
        }
        let ghost old_out = out@;
        match parse_fixed(toks[i].as_str()) {
            Some(v) => {
                out.push(v);
                proof {
                    let f = |w: i64| w as int;
                    assert(out@.map_values(f) =~= old_out.map_values(f).push(v as int));
                    assert(old_out.map_values(f) + (seq![v as int] + nums_from(tv, i + 1))
                        =~= out@.map_values(f) + nums_from(tv, i + 1));
                }
            },
            None => {},
        }
        i = i + 1;
    }
    proof {
        let f = |w: i64| w as int;
        let all = nums_from(tv, 0);
        if out@.len() < 4 {
            assert(i == toks@.len());
            assert(nums_from(tv, i as int) == Seq::<int>::empty());
            assert(out@.map_values(f) + Seq::<int>::empty() =~= out@.map_values(f));
        } else {
            lemma_nums_from_len(tv, i as int);
            assert(all =~= out@.map_values(f) + nums_from(tv, i as int));
            assert(all.len() >= 4);
            assert(all.take(out@.len() as int) =~= out@.map_values(f));
        }
    }
    out
}

proof fn lemma_nums_from_len(toks: Seq<Seq<char>>, i: int)
    requires
        0 <= i,
    ensures
        nums_from(toks, i).len() >= 0,
{
}

// --- orchestrator decisions ---

/// Whether this job emits a symbol: enabled and the stream is non-empty.
pub fn symbol_wanted(options: &ConversionOptions, data: &ComponentData) -> (r: bool)
    ensures
        r == (options.convert_symbol && data.data_str@.len() > 0),
{
    options.convert_symbol && data.data_str.len() > 0
}

/// Whether this job emits a footprint: enabled and the stream is
/// non-empty.
pub fn footprint_wanted(options: &ConversionOptions, data: &ComponentData) -> (r: bool)
    ensures
        r == (options.convert_footprint && data.package_detail@.len() > 0),
{
    options.convert_footprint && data.package_detail.len() > 0
}

/// Whether this job transcodes a 3D model: enabled and a model is known.
pub fn model_wanted(options: &ConversionOptions, data: &ComponentData) -> (r: bool)
    ensures
        r == (options.convert_3d && data.model_3d is Some),
{
    options.convert_3d && data.model_3d.is_some()
}

/// The success message of a finished job; the skipped symbol, when the
/// library already had one, is named with the remedy.
pub fn build_success_message(lcsc_id: &str, component_name: &str, symbol_skipped: bool)
    -> (r: String)
    ensures
        r@ == "Successfully converted "@ + lcsc_id@ + " to "@ + component_name@
            + (if symbol_skipped {
                "
Skipped: Symbol (already exists) (enable overwrite to update)"@
            } else {
                Seq::<char>::empty()
            }),
{
    let mut m = String::new();
    m.append("Successfully converted ");
    m.append(lcsc_id);
    m.append(" to ");
    m.append(component_name);
    if symbol_skipped {
        m.append("
Skipped: Symbol (already exists) (enable overwrite to update)");
    }
    proof {
        assert(m@ =~= "Successfully converted "@ + lcsc_id@ + " to "@ + component_name@
            + (if symbol_skipped {
                "
Skipped: Symbol (already exists) (enable overwrite to update)"@
            } else {
                Seq::<char>::empty()
            }));
    }
    m
}

/// The failure message of a job, around the error's own words.
pub fn build_failure_message(detail: &str) -> (r: String)
    ensures
        r@ == "Conversion failed: "@ + detail@,
{
    let mut m = String::new();
    m.append("Conversion failed: ");
    m.append(detail);
    proof {
        assert(m@ =~= "Conversion failed: "@ + detail@);
    }
    m
}

/// The notification a job emits when it enters the work phase.
pub fn progress_started(current: usize, total: usize, lcsc_id: &str) -> (r: ProgressUpdate)
    ensures
        r.current == current,
        r.total == total,
        r.lcsc_id@ == lcsc_id@,
        r.status@ == "converting"@,
{
    let mut status = String::new();
    status.append("converting");
    proof {
        assert(status@ =~= "converting"@);
    }
    ProgressUpdate { current, total, lcsc_id: lcsc_id.to_owned(), status }
}

/// The notification a job emits when it finishes, naming the outcome.
pub fn progress_finished(current: usize, total: usize, lcsc_id: &str, success: bool)
    -> (r: ProgressUpdate)
    ensures
        r.current == current,
        r.total == total,
        r.lcsc_id@ == lcsc_id@,
        r.status@ == (if success { "completed"@ } else { "failed"@ }),
{
    let mut status = String::new();
    if success {
        status.append("completed");
        proof {
            assert(status@ =~= "completed"@);
        }
    } else {
        status.append("failed");
        proof {
            assert(status@ =~= "failed"@);
        }
    }
    ProgressUpdate { current, total, lcsc_id: lcsc_id.to_owned(), status }
}

/// The successful jobs among the first `i` results.
pub open spec fn count_success(rs: Seq<ConversionResult>, i: int) -> int
    decreases i,
{
    if i <= 0 {
        0
    } else {
        count_success(rs, i - 1) + (if rs[i - 1].success { 1int } else { 0int })
    }
}

proof fn lemma_count_success_bound(rs: Seq<ConversionResult>, i: int)
    requires
        0 <= i <= rs.len(),
    ensures
        0 <= count_success(rs, i) <= i,
    decreases i,
{
    if i > 0 {
        lemma_count_success_bound(rs, i - 1);
    }
}

/// The aggregate of a finished batch: the total, the success and failure
/// counts that always add up to it, and every per-job result kept.
pub fn summarize_batch(results: Vec<ConversionResult>) -> (r: BatchResult)
    ensures
        r.total == results@.len(),
        r.succeeded == count_success(results@, results@.len() as int),
        r.failed == r.total - r.succeeded,
        r.results == results,
{
    let total = results.len();
    let mut succeeded: usize = 0;
    let mut i: usize = 0;
    while i < results.len()
        invariant
            0 <= i <= results@.len(),
            succeeded == count_success(results@, i as int),
            0 <= succeeded <= i,
        decreases results@.len() - i,
    {
        proof {
            lemma_count_success_bound(results@, i as int);
        }
        if results[i].success {
            succeeded = succeeded + 1;
        }
        i = i + 1;
    }
    BatchResult { total, succeeded, failed: total - succeeded, results }
}


/// Whether every coordinate of a decoded symbol is small enough for the
/// flips and corner sums of the conversion.
pub fn symbol_in_range(s: &EeSymbol) -> (r: bool)
    ensures
        r == ee_symbol_small(*s),
{
    let mut ok = true;
    let mut i: usize = 0;
    while i < s.pins.len()
        invariant
            0 <= i <= s.pins@.len(),
            ok == (forall|k: int| 0 <= k < i
                ==> small((#[trigger] s.pins@[k]).x as int) && small(s.pins@[k].y as int)
                    && small(s.pins@[k].length as int)
                    && -100000000 < s.pins@[k].rotation < 100000000),
        decreases s.pins@.len() - i,
    {
        let p = &s.pins[i];
        let here = small_exec(p.x) && small_exec(p.y) && small_exec(p.length)
            && -100000000 < p.rotation && p.rotation < 100000000;
        ok = ok && here;
        i = i + 1;
    }
    let mut i: usize = 0;
    while i < s.rectangles.len()
        invariant
            0 <= i <= s.rectangles@.len(),
            ok == ((forall|k: int| 0 <= k < s.pins@.len()
                ==> small((#[trigger] s.pins@[k]).x as int) && small(s.pins@[k].y as int)
                    && small(s.pins@[k].length as int)
                    && -100000000 < s.pins@[k].rotation < 100000000)
                && (forall|k: int| 0 <= k < i
                    ==> small((#[trigger] s.rectangles@[k]).x as int)
                        && small(s.rectangles@[k].y as int)
                        && small(s.rectangles@[k].width as int)
                        && small(s.rectangles@[k].height as int)
                        && small(s.rectangles@[k].stroke_width as int))),
        decreases s.rectangles@.len() - i,
    {
        let p = &s.rectangles[i];
        let here = small_exec(p.x) && small_exec(p.y) && small_exec(p.width)
            && small_exec(p.height) && small_exec(p.stroke_width);
        ok = ok && here;
        i = i + 1;
    }
    let mut i: usize = 0;
    while i < s.circles.len()
        invariant
            0 <= i <= s.circles@.len(),
            ok == ((forall|k: int| 0 <= k < s.pins@.len()
                ==> small((#[trigger] s.pins@[k]).x as int) && small(s.pins@[k].y as int)
                    && small(s.pins@[k].length as int)
                    && -100000000 < s.pins@[k].rotation < 100000000)
                && (forall|k: int| 0 <= k < s.rectangles@.len()
                    ==> small((#[trigger] s.rectangles@[k]).x as int)
                        && small(s.rectangles@[k].y as int)
                        && small(s.rectangles@[k].width as int)
                        && small(s.rectangles@[k].height as int)
                        && small(s.rectangles@[k].stroke_width as int))
                && (forall|k: int| 0 <= k < i
                    ==> small((#[trigger] s.circles@[k]).cx as int)
                        && small(s.circles@[k].cy as int)
                        && small(s.circles@[k].radius as int)
                        && small(s.circles@[k].stroke_width as int))),
        decreases s.circles@.len() - i,
    {
        let p = &s.circles[i];
        let here = small_exec(p.cx) && small_exec(p.cy) && small_exec(p.radius)
            && small_exec(p.stroke_width);
        ok = ok && here;
        i = i + 1;
    }
    let mut i: usize = 0;
    while i < s.polylines.len()
        invariant
            0 <= i <= s.polylines@.len(),
            ok == ((forall|k: int| 0 <= k < s.pins@.len()
                ==> small((#[trigger] s.pins@[k]).x as int) && small(s.pins@[k].y as int)
                    && small(s.pins@[k].length as int)
                    && -100000000 < s.pins@[k].rotation < 100000000)
                && (forall|k: int| 0 <= k < s.rectangles@.len()
                    ==> small((#[trigger] s.rectangles@[k]).x as int)
                        && small(s.rectangles@[k].y as int)
                        && small(s.rectangles@[k].width as int)
                        && small(s.rectangles@[k].height as int)
                        && small(s.rectangles@[k].stroke_width as int))
                && (forall|k: int| 0 <= k < s.circles@.len()
                    ==> small((#[trigger] s.circles@[k]).cx as int)
                        && small(s.circles@[k].cy as int)
                        && small(s.circles@[k].radius as int)
                        && small(s.circles@[k].stroke_width as int))
                && (forall|k: int| 0 <= k < i ==> poly_small(#[trigger] s.polylines@[k]))),
        decreases s.polylines@.len() - i,
    {
        let p = &s.polylines[i];
        let here = poly_in_range(p);
        ok = ok && here;
        i = i + 1;
    }
    ok
}

fn small_exec(v: i64) -> (r: bool)
    ensures
        r == small(v as int),
{
    -500000000000 <= v && v <= 500000000000
}

fn poly_in_range(p: &EePolyline) -> (r: bool)
    ensures
        r == poly_small(*p),
{
    if p.points.len() >= 1000000000 || !small_exec(p.stroke_width) {
        return false;
    }
    let mut j: usize = 0;
    while j < p.points.len()
        invariant
            0 <= j <= p.points@.len(),
            p.points@.len() < 1000000000,
            small(p.stroke_width as int),
            forall|k: int| 0 <= k < j
                ==> small((#[trigger] p.points@[k]).0 as int) && small(p.points@[k].1 as int),
        decreases p.points@.len() - j,
    {
        let (x, y) = p.points[j];
        if !(small_exec(x) && small_exec(y)) {
            return false;
        }
        j = j + 1;
    }
    true
}

/// The whole symbol path of one job: decode the stream, convert to the
/// glyph, serialize for the dialect.  The text is exactly the serialization
/// of a glyph that matches the decoded fold; the one failure is geometry
/// beyond the fixed grid.
pub fn convert_symbol(data_str: &Vec<String>, component_name: &str, manufacturer: &str,
    datasheet: &str, lcsc_id: &str, jlc_id: &str,
    version: crate::convert::KicadVersion)
    -> (r: Result<String, crate::errors::AppError>)
    ensures
        match r {
            Ok(out) => exists|e: EeSymbol, k: KiSymbol|
                crate::importer::sym_matches(e,
                    crate::importer::sym_fold(data_str.deep_view(),
                        data_str@.len() as int))
                    && #[trigger] symbol_conversion_ok(e, k, component_name@, manufacturer@,
                        datasheet@, lcsc_id@, jlc_id@)
                    && out@ == crate::kicad_symbol_export::symbol_text(k, version),
            Err(_) => true,
        },
{
    let ee_symbol = match crate::importer::SymbolImporter::parse(data_str) {
        Ok(e) => e,
        Err(e) => { return Err(e); },
    };
    if !symbol_in_range(&ee_symbol) {
        let mut m = String::new();
        m.append("symbol coordinates beyond the grid");
        return Err(crate::errors::AppError::Conversion(
            crate::errors::ConversionError::InvalidCoordinate(m)));
    }
    let ki_symbol = convert_ee_symbol_to_ki(&ee_symbol, component_name, manufacturer,
        datasheet, lcsc_id, jlc_id);
    let exporter = crate::kicad_symbol_export::SymbolExporter::new(version);
    let out = match exporter.export(&ki_symbol) {
        Ok(o) => o,
        Err(e) => { return Err(e); },
    };
    proof {
        assert(symbol_conversion_ok(ee_symbol, ki_symbol, component_name@, manufacturer@,
            datasheet@, lcsc_id@, jlc_id@));
    }
    Ok(out)
}

/// The glyph is the image of the decoded symbol under the conversion.
pub open spec fn symbol_conversion_ok(e: EeSymbol, k: KiSymbol, name: Seq<char>,
    manufacturer: Seq<char>, datasheet: Seq<char>, lcsc_id: Seq<char>, jlc_id: Seq<char>)
    -> bool {
    &&& k.name@ == name
    &&& k.reference@ == e.prefix@
    &&& k.value@ == name
    &&& k.datasheet@ == datasheet
    &&& k.manufacturer@ == manufacturer
    &&& k.lcsc_id@ == lcsc_id
    &&& k.jlc_id@ == jlc_id
    &&& k.pins@.len() == e.pins@.len()
    &&& forall|i: int| 0 <= i < k.pins@.len()
        ==> ki_pin_matches(#[trigger] k.pins@[i], e.pins@[i])
    &&& k.rectangles@.len() == e.rectangles@.len()
    &&& forall|i: int| 0 <= i < k.rectangles@.len()
        ==> ki_rect_matches(#[trigger] k.rectangles@[i], e.rectangles@[i])
    &&& k.circles@.len() == e.circles@.len()
    &&& forall|i: int| 0 <= i < k.circles@.len()
        ==> ki_circle_matches(#[trigger] k.circles@[i], e.circles@[i])
    &&& k.polylines@.len() == e.polylines@.len()
    &&& forall|i: int| 0 <= i < k.polylines@.len()
        ==> ki_poly_matches(#[trigger] k.polylines@[i], e.polylines@[i])
    &&& k.arcs@.len() == 0
}


fn footprint_in_range(f: &EeFootprint) -> (r: bool)
    ensures
        r == ee_footprint_small(*f),
{
    let mut ok = true;
    let mut i: usize = 0;
    while i < f.pads.len()
        invariant
            0 <= i <= f.pads@.len(),
            ok == (forall|k: int| 0 <= k < i
                ==> small((#[trigger] f.pads@[k]).x as int) && small(f.pads@[k].y as int)
                    && small(f.pads@[k].width as int) && small(f.pads@[k].height as int)
                    && small(f.pads@[k].rotation as int)
                    && (match f.pads@[k].hole_radius {
                        Some(r) => 0 <= r && small(r as int),
                        None => true,
                    })
                    && (match f.pads@[k].hole_length {
                        Some(l) => 0 <= l && small(l as int),
                        None => true,
                    })),
        decreases f.pads@.len() - i,
    {
        let p = &f.pads[i];
        let hr_ok = match p.hole_radius {
            Some(r) => 0 <= r && small_exec(r),
            None => true,
        };
        let hl_ok = match p.hole_length {
            Some(l) => 0 <= l && small_exec(l),
            None => true,
        };
        let here = small_exec(p.x) && small_exec(p.y) && small_exec(p.width)
            && small_exec(p.height) && small_exec(p.rotation) && hr_ok && hl_ok;
        ok = ok && here;
        i = i + 1;
    }
    let ghost pads_ok = ok;
    let mut i: usize = 0;
    while i < f.circles.len()
        invariant
            0 <= i <= f.circles@.len(),
            pads_ok == (forall|k: int| 0 <= k < f.pads@.len()
                ==> small((#[trigger] f.pads@[k]).x as int) && small(f.pads@[k].y as int)
                    && small(f.pads@[k].width as int) && small(f.pads@[k].height as int)
                    && small(f.pads@[k].rotation as int)
                    && (match f.pads@[k].hole_radius {
                        Some(r) => 0 <= r && small(r as int),
                        None => true,
                    })
                    && (match f.pads@[k].hole_length {
                        Some(l) => 0 <= l && small(l as int),
                        None => true,
                    })),
            ok == (pads_ok && (forall|k: int| 0 <= k < i
                ==> small((#[trigger] f.circles@[k]).cx as int)
                    && small(f.circles@[k].cy as int)
                    && small(f.circles@[k].radius as int)
                    && small(f.circles@[k].stroke_width as int))),
        decreases f.circles@.len() - i,
    {
        let p = &f.circles[i];
        let here = small_exec(p.cx) && small_exec(p.cy) && small_exec(p.radius)
            && small_exec(p.stroke_width);
        ok = ok && here;
        i = i + 1;
    }
    let ghost circ_ok = ok;
    let mut i: usize = 0;
    while i < f.tracks.len()
        invariant
            0 <= i <= f.tracks@.len(),
            circ_ok == (pads_ok_spec(*f) && circles_ok_spec(*f)),
            ok == (circ_ok && (forall|k: int| 0 <= k < i
                ==> small((#[trigger] f.tracks@[k]).stroke_width as int))),
        decreases f.tracks@.len() - i,
    {
        let here = small_exec(f.tracks[i].stroke_width);
        ok = ok && here;
        i = i + 1;
    }
    proof {
        assert(ee_footprint_small(*f) == (pads_ok_spec(*f) && circles_ok_spec(*f)
            && tracks_ok_spec(*f)));
    }
    ok
}

pub open spec fn pads_ok_spec(f: EeFootprint) -> bool {
    forall|k: int| 0 <= k < f.pads@.len()
        ==> small((#[trigger] f.pads@[k]).x as int) && small(f.pads@[k].y as int)
            && small(f.pads@[k].width as int) && small(f.pads@[k].height as int)
            && small(f.pads@[k].rotation as int)
            && (match f.pads@[k].hole_radius {
                Some(r) => 0 <= r && small(r as int),
                None => true,
            })
            && (match f.pads@[k].hole_length {
                Some(l) => 0 <= l && small(l as int),
                None => true,
            })
}

pub open spec fn circles_ok_spec(f: EeFootprint) -> bool {
    forall|k: int| 0 <= k < f.circles@.len()
        ==> small((#[trigger] f.circles@[k]).cx as int) && small(f.circles@[k].cy as int)
            && small(f.circles@[k].radius as int) && small(f.circles@[k].stroke_width as int)
}

pub open spec fn tracks_ok_spec(f: EeFootprint) -> bool {
    forall|k: int| 0 <= k < f.tracks@.len()
        ==> small((#[trigger] f.tracks@[k]).stroke_width as int)
}

/// The footprint module is the image of the decoded stream under the
/// conversion.
pub open spec fn footprint_conversion_ok(e: EeFootprint, k: KiFootprint, name: Seq<char>)
    -> bool {
    &&& k.name@ == name
    &&& k.pads@.len() == e.pads@.len()
    &&& forall|i: int| 0 <= i < k.pads@.len()
        ==> ki_pad_matches(#[trigger] k.pads@[i], e.pads@[i])
    &&& k.lines@.map_values(|l: KiLine| line_val(l))
        == lines_of(e.tracks@, e.tracks@.len() as int)
    &&& k.circles@.len() == e.circles@.len()
    &&& forall|i: int| 0 <= i < k.circles@.len()
        ==> ki_fp_circle_matches(#[trigger] k.circles@[i], e.circles@[i])
    &&& k.model_3d is Some
    &&& k.model_3d->Some_0.path@ == "${KIPRJMOD}/nlbn.3dshapes/"@ + name + ".wrl"@
}

/// The whole footprint path of one job: decode the stream, convert, and
/// serialize the module.  The text is exactly the serialization of a
/// module that matches the decoded fold; the one failure is geometry
/// beyond the fixed grid.
pub fn convert_footprint(package_detail: &Vec<String>, component_name: &str)
    -> (r: Result<String, crate::errors::AppError>)
    ensures
        match r {
            Ok(out) => exists|e: EeFootprint, k: KiFootprint|
                crate::importer::fp_matches(e,
                    crate::importer::fp_fold(package_detail.deep_view(),
                        package_detail@.len() as int))
                    && #[trigger] footprint_conversion_ok(e, k, component_name@)
                    && out@ == crate::kicad_footprint_export::footprint_text(k),
            Err(_) => true,
        },
{
    let ee_footprint = match crate::importer::FootprintImporter::parse(package_detail) {
        Ok(e) => e,
        Err(e) => { return Err(e); },
    };
    if !footprint_in_range(&ee_footprint) {
        let mut m = String::new();
        m.append("footprint coordinates beyond the grid");
        return Err(crate::errors::AppError::Conversion(
            crate::errors::ConversionError::InvalidCoordinate(m)));
    }
    let ki_footprint = convert_ee_footprint_to_ki(&ee_footprint, component_name);
    let out = match crate::kicad_footprint_export::FootprintExporter::new()
        .export(&ki_footprint) {
        Ok(o) => o,
        Err(e) => { return Err(e); },
    };
    proof {
        assert(footprint_conversion_ok(ee_footprint, ki_footprint, component_name@));
    }
    Ok(out)
}

} // verus!
