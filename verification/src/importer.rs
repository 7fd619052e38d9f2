//! The vendor-format decoder.
//!
//! A shape record is a `~`-separated field list whose first field selects
//! the routine; a pin record additionally consists of `^^`-separated
//! segments.  Every `decode_*` spec function below is the exact meaning of
//! one record kind; the executable parsers return precisely those values.
//! Decoding is lossy tolerant: a record that fails its routine is dropped,
//! never the whole component.

use vstd::prelude::*;
use vstd::string::*;
use crate::models::{EeSymbol, EePin, EeRectangle, EeCircle, EeEllipse, EeArc, EePolyline,
    EePolygon, EePath, EeText, EeFootprint, EePad, EeTrack, EeHole, EeVia, EeSvgNode,
    PinV, RectV, CircleV, EllipseV, ArcV, PolyV, PathV, TextV, PadV, TrackV, HoleV, ViaV,
    SvgNodeV, pin_val, rect_val, circle_val, ellipse_val, arc_val, points_val, polyline_val,
    polygon_val, path_val, text_val, pad_val, track_val, hole_val, via_val, svg_node_val,
    opt_val};
use crate::num::{parse_fixed_spec, parse_int_spec, parse_fixed, parse_int, fits_coord};
use crate::lexer::{split_spec, split2_spec, split_fields, split_segments, ws_split_from,
    split_whitespace_tokens};
use crate::svg::{SvgCommand, svg_parse_from, parse_svg_path, run_end, is_ws, lemma_run_end,
    lemma_run_end_unique, svg_cmd_fits, svg_cmds_fit};
use crate::convert::atan2_fx_spec;

verus! {

/// Exact string comparison by characters.
pub fn str_eq(a: &str, b: &str) -> (r: bool)
    ensures
        r == (a@ == b@),
{
    let na = a.unicode_len();
    let nb = b.unicode_len();
    if na != nb {
        return false;
    }
    let mut i: usize = 0;
    while i < na
        invariant
            0 <= i <= na,
            na == a@.len(),
            nb == b@.len(),
            na == nb,
            forall|k: int| 0 <= k < i ==> a@[k] == b@[k],
        decreases na - i,
    {
        if a.get_char(i) != b.get_char(i) {
            return false;
        }
        i = i + 1;
    }
    proof {
        assert(a@ =~= b@);
    }
    true
}

/// A field parsed as fixed point, with a default for a missing or bad one.
pub open spec fn dnum(fs: Seq<Seq<char>>, i: int, d: int) -> int {
    if fs.len() > i {
        match parse_fixed_spec(fs[i]) {
            Some(v) => v,
            None => d,
        }
    } else {
        d
    }
}

/// A field parsed as an integer, with a default.
pub open spec fn dint(fs: Seq<Seq<char>>, i: int, d: int) -> int {
    if fs.len() > i {
        match parse_int_spec(fs[i]) {
            Some(v) => v,
            None => d,
        }
    } else {
        d
    }
}

/// A fill field counts as filled iff it is non-empty and not `none`.
pub open spec fn filled(s: Seq<char>) -> bool {
    s.len() > 0 && s != "none"@
}

pub open spec fn fill_at(fs: Seq<Seq<char>>, i: int) -> bool {
    fs.len() > i && filled(fs[i])
}

fn fixed_at(fs: &Vec<String>, i: usize) -> (r: Option<i64>)
    requires
        i < fs.len(),
    ensures
        match r {
            Some(v) => parse_fixed_spec(fs.deep_view()[i as int]) == Some(v as int)
                && fits_coord(v as int),
            None => parse_fixed_spec(fs.deep_view()[i as int]) is None,
        },
{
    let r = parse_fixed(fs[i].as_str());
    proof {
        assert(fs.deep_view()[i as int] == fs@[i as int]@);
    }
    r
}

fn fixed_or(fs: &Vec<String>, i: usize, d: i64) -> (r: i64)
    requires
        fits_coord(d as int),
    ensures
        r as int == dnum(fs.deep_view(), i as int, d as int),
        fits_coord(r as int),
{
    proof {
        assert(fs.deep_view().len() == fs@.len());
    }
    if i < fs.len() {
        proof {
            assert(fs.deep_view()[i as int] == fs@[i as int]@);
        }
        match parse_fixed(fs[i].as_str()) {
            Some(v) => v,
            None => d,
        }
    } else {
        d
    }
}

fn int_or(fs: &Vec<String>, i: usize, d: i64) -> (r: i64)
    requires
        -100000000 < d < 100000000,
    ensures
        r as int == dint(fs.deep_view(), i as int, d as int),
        -100000000 < r < 100000000,
{
    proof {
        assert(fs.deep_view().len() == fs@.len());
    }
    if i < fs.len() {
        proof {
            assert(fs.deep_view()[i as int] == fs@[i as int]@);
        }
        match parse_int(fs[i].as_str()) {
            Some(v) => v,
            None => d,
        }
    } else {
        d
    }
}

fn fill_at_exec(fs: &Vec<String>, i: usize) -> (r: bool)
    ensures
        r == fill_at(fs.deep_view(), i as int),
{
    proof {
        assert(fs.deep_view().len() == fs@.len());
    }
    if i < fs.len() {
        proof {
            assert(fs.deep_view()[i as int] == fs@[i as int]@);
        }
        let f = fs[i].as_str();
        let nonempty = f.unicode_len() > 0;
        let is_none_word = str_eq(f, "none");
        nonempty && !is_none_word
    } else {
        false
    }
}

// --- record meanings ---

/// `R~x~y~rx~ry~w~h~…`, fill colour at index 10.
pub open spec fn decode_rect(fs: Seq<Seq<char>>) -> Option<RectV> {
    if fs.len() < 7 {
        None
    } else {
        match (parse_fixed_spec(fs[1]), parse_fixed_spec(fs[2]),
               parse_fixed_spec(fs[5]), parse_fixed_spec(fs[6])) {
            (Some(x), Some(y), Some(w), Some(h)) => Some(RectV {
                x, y, width: w, height: h, stroke_width: 10000, fill: fill_at(fs, 10),
            }),
            _ => None,
        }
    }
}

/// `C~cx~cy~r~…`, fill colour at index 7.
pub open spec fn decode_circle(fs: Seq<Seq<char>>) -> Option<CircleV> {
    if fs.len() < 4 {
        None
    } else {
        match (parse_fixed_spec(fs[1]), parse_fixed_spec(fs[2]), parse_fixed_spec(fs[3])) {
            (Some(cx), Some(cy), Some(r)) => Some(CircleV {
                cx, cy, radius: r, stroke_width: 10000, fill: fill_at(fs, 7),
            }),
            _ => None,
        }
    }
}

/// `E~cx~cy~rx~ry~…`, fill colour at index 8.
pub open spec fn decode_ellipse(fs: Seq<Seq<char>>) -> Option<EllipseV> {
    if fs.len() < 5 {
        None
    } else {
        match (parse_fixed_spec(fs[1]), parse_fixed_spec(fs[2]),
               parse_fixed_spec(fs[3]), parse_fixed_spec(fs[4])) {
            (Some(cx), Some(cy), Some(rx), Some(ry)) => Some(EllipseV {
                cx, cy, rx, ry, stroke_width: 10000, fill: fill_at(fs, 8),
            }),
            _ => None,
        }
    }
}

/// `A~cx~cy~r~start~end~…`, the traditional arc layout.
pub open spec fn decode_arc(fs: Seq<Seq<char>>) -> Option<ArcV> {
    if fs.len() < 6 {
        None
    } else {
        match (parse_fixed_spec(fs[1]), parse_fixed_spec(fs[2]), parse_fixed_spec(fs[3]),
               parse_fixed_spec(fs[4]), parse_fixed_spec(fs[5])) {
            (Some(x), Some(y), Some(r), Some(sa), Some(ea)) => Some(ArcV {
                x, y, radius: r, start_angle: sa, end_angle: ea, stroke_width: 10000,
            }),
            _ => None,
        }
    }
}

/// Consecutive token pairs as points; an odd trailing token is dropped,
/// and one bad coordinate rejects the whole list.
pub open spec fn points_of(toks: Seq<Seq<char>>, i: int) -> Option<Seq<(int, int)>>
    decreases toks.len() - i when i >= 0
{
    if i + 1 >= toks.len() {
        Some(Seq::<(int, int)>::empty())
    } else {
        match (parse_fixed_spec(toks[i]), parse_fixed_spec(toks[i + 1])) {
            (Some(x), Some(y)) => match points_of(toks, i + 2) {
                Some(rest) => Some(seq![(x, y)] + rest),
                None => None,
            },
            _ => None,
        }
    }
}

/// `PL~x1 y1 x2 y2 …~width~…`.
pub open spec fn decode_polyline(fs: Seq<Seq<char>>) -> Option<PolyV> {
    if fs.len() < 2 {
        None
    } else {
        match points_of(ws_split_from(fs[1], 0), 0) {
            Some(pts) => Some(PolyV { points: pts, stroke_width: dnum(fs, 2, 10000), fill: false }),
            None => None,
        }
    }
}

/// `PG~x1 y1 x2 y2 …~width~…`, filled iff field 7 is `1`.
pub open spec fn decode_polygon(fs: Seq<Seq<char>>) -> Option<PolyV> {
    if fs.len() < 2 {
        None
    } else {
        match points_of(ws_split_from(fs[1], 0), 0) {
            Some(pts) => Some(PolyV {
                points: pts,
                stroke_width: dnum(fs, 2, 10000),
                fill: fs.len() > 7 && fs[7] == "1"@,
            }),
            None => None,
        }
    }
}

/// Endpoints contributed by each path command.
pub open spec fn pt_points(cmds: Seq<SvgCommand>) -> Seq<(int, int)>
    decreases cmds.len(),
{
    if cmds.len() == 0 {
        Seq::<(int, int)>::empty()
    } else {
        pt_points(cmds.drop_last()) + (match cmds.last() {
            SvgCommand::MoveTo { x, y } => seq![(x as int, y as int)],
            SvgCommand::LineTo { x, y } => seq![(x as int, y as int)],
            SvgCommand::Arc { x, y, .. } => seq![(x as int, y as int)],
            SvgCommand::ClosePath => Seq::<(int, int)>::empty(),
        })
    }
}

pub open spec fn pt_closed(cmds: Seq<SvgCommand>) -> bool {
    exists|i: int| 0 <= i < cmds.len() && cmds[i] is ClosePath
}

/// `PT~<path>~color~width~…`: the path's endpoints as a polygon; a closed
/// path repeats its first point and is filled.
pub open spec fn decode_pt_path(fs: Seq<Seq<char>>) -> Option<PolyV> {
    if fs.len() < 2 {
        None
    } else {
        let cmds = svg_parse_from(fs[1], 0);
        if cmds.len() == 0 {
            None
        } else {
            let base = pt_points(cmds);
            let closed = pt_closed(cmds);
            let pts = if closed && base.len() > 0 { base.push(base[0]) } else { base };
            Some(PolyV { points: pts, stroke_width: dnum(fs, 3, 10000), fill: closed })
        }
    }
}

/// `T~x~y~rotation~text~…`, font size at index 8.
pub open spec fn decode_text(fs: Seq<Seq<char>>) -> Option<TextV> {
    if fs.len() < 5 {
        None
    } else {
        match (parse_fixed_spec(fs[1]), parse_fixed_spec(fs[2])) {
            (Some(x), Some(y)) => Some(TextV {
                text: fs[4],
                x,
                y,
                rotation: dint(fs, 3, 0),
                font_size: dnum(fs, 8, 120000),
            }),
            _ => None,
        }
    }
}

/// `PATH~width~layer~path_data~…`.
pub open spec fn decode_path(fs: Seq<Seq<char>>) -> Option<PathV> {
    if fs.len() < 4 {
        None
    } else {
        Some(PathV { path_data: fs[3], stroke_width: dnum(fs, 1, 10000), fill: false })
    }
}

fn parse_rectangle(fs: &Vec<String>) -> (r: Option<EeRectangle>)
    ensures
        match r {
            Some(v) => decode_rect(fs.deep_view()) == Some(rect_val(v))
                && fits_coord(v.x as int) && fits_coord(v.y as int)
                && fits_coord(v.width as int) && fits_coord(v.height as int),
            None => decode_rect(fs.deep_view()) is None,
        },
{
    proof {
        assert(fs.deep_view().len() == fs@.len());
    }
    if fs.len() < 7 {
        return None;
    }
    let x = match fixed_at(fs, 1) { Some(v) => v, None => { return None; } };
    let y = match fixed_at(fs, 2) { Some(v) => v, None => { return None; } };
    let width = match fixed_at(fs, 5) { Some(v) => v, None => { return None; } };
    let height = match fixed_at(fs, 6) { Some(v) => v, None => { return None; } };
    let fill = fill_at_exec(fs, 10);
    Some(EeRectangle { x, y, width, height, stroke_width: 10000, fill })
}

fn parse_circle(fs: &Vec<String>) -> (r: Option<EeCircle>)
    ensures
        match r {
            Some(v) => decode_circle(fs.deep_view()) == Some(circle_val(v))
                && fits_coord(v.cx as int) && fits_coord(v.cy as int)
                && fits_coord(v.radius as int),
            None => decode_circle(fs.deep_view()) is None,
        },
{
    proof {
        assert(fs.deep_view().len() == fs@.len());
    }
    if fs.len() < 4 {
        return None;
    }
    let cx = match fixed_at(fs, 1) { Some(v) => v, None => { return None; } };
    let cy = match fixed_at(fs, 2) { Some(v) => v, None => { return None; } };
    let radius = match fixed_at(fs, 3) { Some(v) => v, None => { return None; } };
    let fill = fill_at_exec(fs, 7);
    Some(EeCircle { cx, cy, radius, stroke_width: 10000, fill })
}

fn parse_ellipse(fs: &Vec<String>) -> (r: Option<EeEllipse>)
    ensures
        match r {
            Some(v) => decode_ellipse(fs.deep_view()) == Some(ellipse_val(v))
                && fits_coord(v.cx as int) && fits_coord(v.cy as int)
                && fits_coord(v.rx as int) && fits_coord(v.ry as int),
            None => decode_ellipse(fs.deep_view()) is None,
        },
{
    proof {
        assert(fs.deep_view().len() == fs@.len());
    }
    if fs.len() < 5 {
        return None;
    }
    let cx = match fixed_at(fs, 1) { Some(v) => v, None => { return None; } };
    let cy = match fixed_at(fs, 2) { Some(v) => v, None => { return None; } };
    let rx = match fixed_at(fs, 3) { Some(v) => v, None => { return None; } };
    let ry = match fixed_at(fs, 4) { Some(v) => v, None => { return None; } };
    let fill = fill_at_exec(fs, 8);
    Some(EeEllipse { cx, cy, rx, ry, stroke_width: 10000, fill })
}

fn parse_arc_traditional(fs: &Vec<String>) -> (r: Option<EeArc>)
    ensures
        match r {
            Some(v) => decode_arc(fs.deep_view()) == Some(arc_val(v)),
            None => decode_arc(fs.deep_view()) is None,
        },
{
    proof {
        assert(fs.deep_view().len() == fs@.len());
    }
    if fs.len() < 6 {
        return None;
    }
    let x = match fixed_at(fs, 1) { Some(v) => v, None => { return None; } };
    let y = match fixed_at(fs, 2) { Some(v) => v, None => { return None; } };
    let radius = match fixed_at(fs, 3) { Some(v) => v, None => { return None; } };
    let start_angle = match fixed_at(fs, 4) { Some(v) => v, None => { return None; } };
    let end_angle = match fixed_at(fs, 5) { Some(v) => v, None => { return None; } };
    Some(EeArc { x, y, radius, start_angle, end_angle, stroke_width: 10000 })
}

fn parse_points(points_str: &str) -> (r: Option<Vec<(i64, i64)>>)
    ensures
        match r {
            Some(v) => points_of(ws_split_from(points_str@, 0), 0) == Some(points_val(v@)),
            None => points_of(ws_split_from(points_str@, 0), 0) is None,
        },
{
    let toks = split_whitespace_tokens(points_str);
    let ghost tv = toks.deep_view();
    let mut out: Vec<(i64, i64)> = Vec::new();
    let mut i: usize = 0;
    proof {
        assert(points_val(out@) =~= Seq::<(int, int)>::empty());
        if points_of(tv, 0) is Some {
            assert(points_val(out@) + points_of(tv, 0)->Some_0 =~= points_of(tv, 0)->Some_0);
        }
    }
    if toks.len() == 0 {
        proof {
            assert(points_of(tv, 0) == Some(Seq::<(int, int)>::empty()));
            assert(points_val(out@) + Seq::<(int, int)>::empty() =~= points_val(out@));
        }
        return Some(out);
    }
    let m = toks.len() - 1;
    while i < m
        invariant
            0 <= i <= m,
            m == toks@.len() - 1,
            tv == toks.deep_view(),
            tv == ws_split_from(points_str@, 0),
            tv.len() == toks@.len(),
            points_of(tv, 0) == (match points_of(tv, i as int) {
                Some(rest) => Some(points_val(out@) + rest),
                None => None::<Seq<(int, int)>>,
            }),
        decreases m - i,
    {
        proof {
            assert(tv[i as int] == toks@[i as int]@);
            assert(tv[i + 1] == toks@[i + 1]@);
        }
        let x = match parse_fixed(toks[i].as_str()) {
            Some(v) => v,
            None => { return None; },
        };
        let y = match parse_fixed(toks[i + 1].as_str()) {
            Some(v) => v,
            None => { return None; },
        };
        let ghost old_pts = out@;
        out.push((x, y));
        proof {
            let rest_opt = points_of(tv, i + 2);
            assert(points_of(tv, i as int) == (match rest_opt {
                Some(rest) => Some(seq![(x as int, y as int)] + rest),
                None => None::<Seq<(int, int)>>,
            }));
            assert(points_val(out@) =~= points_val(old_pts).push((x as int, y as int)));
            if rest_opt is Some {
                let rest = rest_opt->Some_0;
                assert(points_val(old_pts) + (seq![(x as int, y as int)] + rest)
                    =~= points_val(out@) + rest);
            }
        }
        if m - i < 2 {
            proof {
                assert(points_of(tv, i + 2) == Some(Seq::<(int, int)>::empty()));
                assert(points_val(out@) + Seq::<(int, int)>::empty() =~= points_val(out@));
            }
            return Some(out);
        }
        i = i + 2;
    }
    proof {
        assert(points_of(tv, i as int) == Some(Seq::<(int, int)>::empty()));
        assert(points_val(out@) + Seq::<(int, int)>::empty() =~= points_val(out@));
    }
    Some(out)
}

fn parse_polyline(fs: &Vec<String>) -> (r: Option<EePolyline>)
    ensures
        match r {
            Some(v) => decode_polyline(fs.deep_view()) == Some(polyline_val(v)),
            None => decode_polyline(fs.deep_view()) is None,
        },
{
    proof {
        assert(fs.deep_view().len() == fs@.len());
    }
    if fs.len() < 2 {
        return None;
    }
    proof {
        assert(fs.deep_view()[1] == fs@[1]@);
    }
    let points = match parse_points(fs[1].as_str()) {
        Some(v) => v,
        None => { return None; },
    };
    let stroke_width = fixed_or(fs, 2, 10000);
    Some(EePolyline { points, stroke_width })
}

fn parse_polygon(fs: &Vec<String>) -> (r: Option<EePolygon>)
    ensures
        match r {
            Some(v) => decode_polygon(fs.deep_view()) == Some(polygon_val(v)),
            None => decode_polygon(fs.deep_view()) is None,
        },
{
    proof {
        assert(fs.deep_view().len() == fs@.len());
    }
    if fs.len() < 2 {
        return None;
    }
    proof {
        assert(fs.deep_view()[1] == fs@[1]@);
    }
    let points = match parse_points(fs[1].as_str()) {
        Some(v) => v,
        None => { return None; },
    };
    let stroke_width = fixed_or(fs, 2, 10000);
    let fill = fs.len() > 7 && str_eq(fs[7].as_str(), "1");
    proof {
        if fs@.len() > 7 {
            assert(fs.deep_view()[7] == fs@[7]@);
        }
    }
    Some(EePolygon { points, stroke_width, fill })
}

fn parse_pt_path(fs: &Vec<String>) -> (r: Option<EePolygon>)
    ensures
        match r {
            Some(v) => decode_pt_path(fs.deep_view()) == Some(polygon_val(v)),
            None => decode_pt_path(fs.deep_view()) is None,
        },
{
    proof {
        assert(fs.deep_view().len() == fs@.len());
    }
    if fs.len() < 2 {
        return None;
    }
    proof {
        assert(fs.deep_view()[1] == fs@[1]@);
    }
    let cmds = match parse_svg_path(fs[1].as_str()) {
        Ok(c) => c,
        Err(_) => { return None; },
    };
    let mut points: Vec<(i64, i64)> = Vec::new();
    let mut has_close_path = false;
    let mut i: usize = 0;
    proof {
        assert(cmds@.take(0) =~= Seq::<SvgCommand>::empty());
        assert(points_val(points@) =~= pt_points(cmds@.take(0)));
    }
    while i < cmds.len()
        invariant
            0 <= i <= cmds@.len(),
            points_val(points@) == pt_points(cmds@.take(i as int)),
            has_close_path == pt_closed(cmds@.take(i as int)),
        decreases cmds@.len() - i,
    {
        let ghost old_pts = points@;
        proof {
            assert(cmds@.take(i + 1).drop_last() =~= cmds@.take(i as int));
            assert(cmds@.take(i + 1).last() == cmds@[i as int]);
        }
        match cmds[i] {
            SvgCommand::MoveTo { x, y } => {
                points.push((x, y));
                proof {
                    assert(points_val(points@) =~= points_val(old_pts).push((x as int, y as int)));
                    assert(points_val(points@) =~= pt_points(cmds@.take(i + 1)));
                }
            },
            SvgCommand::LineTo { x, y } => {
                points.push((x, y));
                proof {
                    assert(points_val(points@) =~= points_val(old_pts).push((x as int, y as int)));
                    assert(points_val(points@) =~= pt_points(cmds@.take(i + 1)));
                }
            },
            SvgCommand::Arc { x, y, .. } => {
                points.push((x, y));
                proof {
                    assert(points_val(points@) =~= points_val(old_pts).push((x as int, y as int)));
                    assert(points_val(points@) =~= pt_points(cmds@.take(i + 1)));
                }
            },
            SvgCommand::ClosePath => {
                has_close_path = true;
                proof {
                    assert(pt_points(cmds@.take(i + 1)) =~= pt_points(cmds@.take(i as int)));
                    assert(cmds@.take(i + 1)[i as int] is ClosePath);
                    assert(pt_closed(cmds@.take(i + 1)));
                }
            },
        }
        proof {
            if has_close_path && !pt_closed(cmds@.take(i + 1)) {
                let w = choose|k: int| 0 <= k < i && #[trigger] cmds@.take(i as int)[k] is ClosePath;
                assert(cmds@.take(i + 1)[w] is ClosePath);
            }
            if pt_closed(cmds@.take(i + 1)) && !(cmds@[i as int] is ClosePath) && !has_close_path {
                let w = choose|k: int| 0 <= k < i + 1 && #[trigger] cmds@.take(i + 1)[k] is ClosePath;
                assert(w < i);
                assert(cmds@.take(i as int)[w] is ClosePath);
            }
        }
        i = i + 1;
    }
    proof {
        assert(cmds@.take(cmds@.len() as int) =~= cmds@);
    }
    if has_close_path && points.len() > 0 {
        let first_point = points[0];
        let ghost base = points@;
        points.push(first_point);
        proof {
            assert(points_val(points@) =~= points_val(base).push((base[0].0 as int, base[0].1 as int)));
            assert(points_val(base)[0] == (base[0].0 as int, base[0].1 as int));
            assert(points_val(points@) =~= points_val(base).push(points_val(base)[0]));
        }
    }
    let stroke_width = fixed_or(fs, 3, 10000);
    Some(EePolygon { points, stroke_width, fill: has_close_path })
}

fn parse_text(fs: &Vec<String>) -> (r: Option<EeText>)
    ensures
        match r {
            Some(v) => decode_text(fs.deep_view()) == Some(text_val(v)),
            None => decode_text(fs.deep_view()) is None,
        },
{
    proof {
        assert(fs.deep_view().len() == fs@.len());
    }
    if fs.len() < 5 {
        return None;
    }
    let x = match fixed_at(fs, 1) { Some(v) => v, None => { return None; } };
    let y = match fixed_at(fs, 2) { Some(v) => v, None => { return None; } };
    let rotation = int_or(fs, 3, 0);
    let text = fs[4].clone();
    let font_size = fixed_or(fs, 8, 120000);
    proof {
        assert(fs.deep_view()[4] == fs@[4]@);
    }
    Some(EeText { text, x, y, rotation, font_size })
}

fn parse_path_record(fs: &Vec<String>) -> (r: Option<EePath>)
    ensures
        match r {
            Some(v) => decode_path(fs.deep_view()) == Some(path_val(v)),
            None => decode_path(fs.deep_view()) is None,
        },
{
    proof {
        assert(fs.deep_view().len() == fs@.len());
    }
    if fs.len() < 4 {
        return None;
    }
    let stroke_width = fixed_or(fs, 1, 10000);
    let path_data = fs[3].clone();
    proof {
        assert(fs.deep_view()[3] == fs@[3]@);
    }
    Some(EePath { path_data, stroke_width, fill: false })
}


// --- pin records ---

/// Index of the last occurrence of `c` in `s`, or -1.
pub open spec fn last_pos(s: Seq<char>, c: char) -> int
    decreases s.len(),
{
    if s.len() == 0 {
        -1
    } else if s.last() == c {
        s.len() - 1
    } else {
        last_pos(s.drop_last(), c)
    }
}

/// One past the last non-blank character.
pub open spec fn rtrim_end(s: Seq<char>) -> int
    decreases s.len(),
{
    if s.len() > 0 && is_ws(s.last()) {
        rtrim_end(s.drop_last())
    } else {
        s.len() as int
    }
}

proof fn lemma_rtrim(s: Seq<char>)
    ensures
        0 <= rtrim_end(s) <= s.len(),
        forall|k: int| rtrim_end(s) <= k < s.len() ==> is_ws(#[trigger] s[k]),
        rtrim_end(s) > 0 ==> !is_ws(s[rtrim_end(s) - 1]),
    decreases s.len(),
{
    if s.len() > 0 && is_ws(s.last()) {
        lemma_rtrim(s.drop_last());
        assert forall|k: int| rtrim_end(s) <= k < s.len() implies is_ws(#[trigger] s[k]) by {
            if k < s.len() - 1 {
                assert(s.drop_last()[k] == s[k]);
            }
        }
    }
}

/// Blanks removed from both ends.
pub open spec fn trim_spec(s: Seq<char>) -> Seq<char> {
    let a = run_end(s, 0, |c: char| is_ws(c));
    if a == s.len() {
        Seq::<char>::empty()
    } else {
        s.subrange(a, rtrim_end(s))
    }
}

fn is_blank(c: char) -> (r: bool)
    ensures
        r == is_ws(c),
{
    c == ' ' || c == '\t' || c == '\n' || c == '\r'
}

/// Blanks removed from both ends; exactly `trim_spec`.
pub fn trim_str(s: &str) -> (r: String)
    ensures
        r@ == trim_spec(s@),
{
    let n = s.unicode_len();
    let mut a: usize = 0;
    while a < n && is_blank(s.get_char(a))
        invariant
            0 <= a <= n,
            n == s@.len(),
            forall|k: int| 0 <= k < a ==> is_ws(#[trigger] s@[k]),
        decreases n - a,
    {
        a = a + 1;
    }
    proof {
        lemma_run_end_unique(s@, 0, a as int, |c: char| is_ws(c));
    }
    if a == n {
        let r = String::new();
        proof {
            assert(r@ =~= trim_spec(s@));
        }
        return r;
    }
    let mut b: usize = n;
    proof {
        assert(s@.take(n as int) =~= s@);
    }
    while b > 0 && is_blank(s.get_char(b - 1))
        invariant
            0 <= b <= n,
            n == s@.len(),
            rtrim_end(s@) == rtrim_end(s@.take(b as int)),
        decreases b,
    {
        proof {
            assert(s@.take(b as int).last() == s@[b - 1]);
            assert(s@.take(b as int).drop_last() =~= s@.take(b - 1));
        }
        b = b - 1;
    }
    proof {
        if b > 0 {
            assert(s@.take(b as int).last() == s@[b - 1]);
        }
        assert(rtrim_end(s@.take(b as int)) == b);
        lemma_rtrim(s@);
        assert(!is_ws(s@[a as int]));
        if b <= a {
            assert(is_ws(s@[a as int]));
        }
    }
    let r = s.substring_char(a, b).to_owned();
    proof {
        assert(r@ =~= trim_spec(s@));
    }
    r
}

fn last_pos_exec(s: &str, c: char) -> (r: Option<usize>)
    ensures
        match r {
            Some(p) => last_pos(s@, c) == p as int,
            None => last_pos(s@, c) == -1,
        },
{
    let n = s.unicode_len();
    let mut i: usize = n;
    proof {
        assert(s@.take(n as int) =~= s@);
    }
    while i > 0
        invariant
            0 <= i <= n,
            n == s@.len(),
            last_pos(s@, c) == last_pos(s@.take(i as int), c),
        decreases i,
    {
        proof {
            assert(s@.take(i as int).last() == s@[i - 1]);
            assert(s@.take(i as int).drop_last() =~= s@.take(i - 1));
        }
        if s.get_char(i - 1) == c {
            return Some(i - 1);
        }
        i = i - 1;
    }
    proof {
        assert(s@.take(0) =~= Seq::<char>::empty());
    }
    None
}

/// The pin length encoded after the last `h` or `v` of a pin path
/// fragment; the magnitude of the number, 100 source units by default.
pub open spec fn hv_len(path: Seq<char>, pos: int) -> int {
    let numstr = trim_spec(path.skip(pos + 1));
    let v = match parse_fixed_spec(numstr) {
        Some(v) => v,
        None => 1000000,
    };
    if v < 0 { -v } else { v }
}

pub open spec fn pin_length_of(path: Seq<char>) -> int {
    if last_pos(path, 'h') >= 0 {
        hv_len(path, last_pos(path, 'h'))
    } else if last_pos(path, 'v') >= 0 {
        hv_len(path, last_pos(path, 'v'))
    } else {
        1000000
    }
}

fn hv_len_exec(path: &str, pos: usize) -> (r: i64)
    requires
        pos < path@.len(),
    ensures
        r as int == hv_len(path@, pos as int),
        fits_coord(r as int),
{
    let n = path.unicode_len();
    let tail = path.substring_char(pos + 1, n);
    let trimmed = trim_str(tail);
    proof {
        assert(tail@ =~= path@.skip(pos + 1));
    }
    let v: i64 = match parse_fixed(trimmed.as_str()) {
        Some(v) => v,
        None => 1000000,
    };
    if v < 0 { -v } else { v }
}

fn pin_length_exec(path: &str) -> (r: i64)
    ensures
        r as int == pin_length_of(path@),
        fits_coord(r as int),
{
    match last_pos_exec(path, 'h') {
        Some(p) => {
            proof {
                lemma_last_pos_bound(path@, 'h');
            }
            hv_len_exec(path, p)
        },
        None => match last_pos_exec(path, 'v') {
            Some(p) => {
                proof {
                    lemma_last_pos_bound(path@, 'v');
                }
                hv_len_exec(path, p)
            },
            None => 1000000,
        },
    }
}

proof fn lemma_last_pos_bound(s: Seq<char>, c: char)
    ensures
        -1 <= last_pos(s, c) < s.len(),
    decreases s.len(),
{
    if s.len() > 0 && s.last() != c {
        lemma_last_pos_bound(s.drop_last(), c);
    }
}

/// The visible pin name: segment 3, field 4, with `PIN` as fallback.
pub open spec fn pin_name_of(segs: Seq<Seq<char>>) -> Seq<char> {
    if segs.len() > 3 {
        let nf = split_spec(segs[3], '~');
        if nf.len() > 4 {
            nf[4]
        } else {
            "PIN"@
        }
    } else {
        "PIN"@
    }
}

/// The meaning of a `P` record: segment 0 carries position, rotation and
/// electrical type; segment 2 the length; segment 3 the visible name.
pub open spec fn decode_pin(rec: Seq<char>) -> Option<PinV> {
    let segs = split2_spec(rec);
    let f0 = split_spec(segs[0], '~');
    if f0.len() < 7 {
        None
    } else {
        match (parse_fixed_spec(f0[4]), parse_fixed_spec(f0[5])) {
            (Some(x), Some(y)) => Some(PinV {
                number: f0[3],
                name: pin_name_of(segs),
                x,
                y,
                rotation: dint(f0, 6, 0),
                length: if segs.len() > 2 {
                    pin_length_of(split_spec(segs[2], '~')[0])
                } else {
                    1000000
                },
                name_visible: true,
                number_visible: true,
                electric_type: f0[2],
                dot: false,
                clock: false,
            }),
            _ => None,
        }
    }
}

fn parse_pin(pin_data: &str) -> (r: Option<EePin>)
    ensures
        match r {
            Some(v) => decode_pin(pin_data@) == Some(pin_val(v)),
            None => decode_pin(pin_data@) is None,
        },
{
    let segments = split_segments(pin_data);
    let ghost segs = split2_spec(pin_data@);
    proof {
        assert(segments.deep_view()[0] == segments@[0]@);
    }
    let fields = split_fields(segments[0].as_str(), '~');
    let ghost f0 = split_spec(segs[0], '~');
    proof {
        assert(fields.deep_view() == f0);
        assert(fields.deep_view().len() == fields@.len());
    }
    if fields.len() < 7 {
        return None;
    }
    proof {
        assert(fields.deep_view()[3] == fields@[3]@);
        assert(fields.deep_view()[2] == fields@[2]@);
    }
    let x = match fixed_at(&fields, 4) { Some(v) => v, None => { return None; } };
    let y = match fixed_at(&fields, 5) { Some(v) => v, None => { return None; } };
    let number = fields[3].clone();
    let electric_type = fields[2].clone();
    let rotation = int_or(&fields, 6, 0);
    let name: String = if segments.len() > 3 {
        proof {
            assert(segments.deep_view()[3] == segments@[3]@);
        }
        let nf = split_fields(segments[3].as_str(), '~');
        proof {
            assert(nf.deep_view().len() == nf@.len());
        }
        if nf.len() > 4 {
            proof {
                assert(nf.deep_view()[4] == nf@[4]@);
            }
            nf[4].clone()
        } else {
            String::from_str("PIN")
        }
    } else {
        String::from_str("PIN")
    };
    let length: i64 = if segments.len() > 2 {
        proof {
            assert(segments.deep_view()[2] == segments@[2]@);
        }
        let pf = split_fields(segments[2].as_str(), '~');
        proof {
            assert(pf.deep_view()[0] == pf@[0]@);
        }
        pin_length_exec(pf[0].as_str())
    } else {
        1000000
    };
    Some(EePin {
        number,
        name,
        x,
        y,
        rotation,
        length,
        name_visible: true,
        number_visible: true,
        electric_type,
        dot: false,
        clock: false,
    })
}

// --- vendor-path arcs ---

/// Signed halving that truncates toward zero, as the source data uses.
pub open spec fn tdiv2(a: int) -> int {
    if a >= 0 { a / 2 } else { -((-a) / 2) }
}

/// The angle pair ordered by the sweep flag: with the flag the sweep runs
/// upward from start to end, without it downward.
pub open spec fn sweep_adjust(sa: int, ea: int, sweep: bool) -> (int, int) {
    if sweep {
        if ea < sa { (sa, ea + 3600000) } else { (sa, ea) }
    } else {
        if sa < ea { (sa + 3600000, ea) } else { (sa, ea) }
    }
}

/// An SVG arc command approximated by a centre arc: the centre is the
/// chord midpoint, the radius the mean of the two radii, and the angles
/// come from the endpoints.
pub open spec fn mk_svg_arc(px: int, py: int, rx: int, ry: int, sweep: bool, x: int, y: int) -> ArcV {
    let cx = tdiv2(px + x);
    let cy = tdiv2(py + y);
    let rsum = if rx + ry < 0 { -(rx + ry) } else { rx + ry };
    let angles = sweep_adjust(
        atan2_fx_spec(py - cy, px - cx),
        atan2_fx_spec(y - cy, x - cx),
        sweep,
    );
    ArcV {
        x: cx,
        y: cy,
        radius: tdiv2(rsum),
        start_angle: angles.0,
        end_angle: angles.1,
        stroke_width: 10000,
    }
}

/// Arcs produced by a command stream, tracking the current position.
pub open spec fn svg_arcs_from(cmds: Seq<SvgCommand>, i: int, px: int, py: int) -> Seq<ArcV>
    decreases cmds.len() - i when 0 <= i
{
    if i >= cmds.len() {
        Seq::<ArcV>::empty()
    } else {
        match cmds[i] {
            SvgCommand::MoveTo { x, y } => svg_arcs_from(cmds, i + 1, x as int, y as int),
            SvgCommand::LineTo { x, y } => svg_arcs_from(cmds, i + 1, x as int, y as int),
            SvgCommand::ClosePath => svg_arcs_from(cmds, i + 1, px, py),
            SvgCommand::Arc { rx, ry, sweep, x, y, .. } => seq![
                mk_svg_arc(px, py, rx as int, ry as int, sweep, x as int, y as int)
            ] + svg_arcs_from(cmds, i + 1, x as int, y as int),
        }
    }
}

/// The meaning of an `A` record in the SVG-path form.
pub open spec fn decode_svg_arcs(fs: Seq<Seq<char>>) -> Option<Seq<ArcV>> {
    if fs.len() < 2 {
        None
    } else {
        let cmds = svg_parse_from(fs[1], 0);
        if cmds.len() == 0 {
            None
        } else {
            Some(svg_arcs_from(cmds, 0, 0, 0))
        }
    }
}

fn tdiv2_exec(a: i64) -> (r: i64)
    requires
        -4000000000000 <= a <= 4000000000000,
    ensures
        r as int == tdiv2(a as int),
        -2000000000000 <= r <= 2000000000000,
{
    if a >= 0 { a / 2 } else { -((-a) / 2) }
}

fn parse_svg_arc(fs: &Vec<String>) -> (r: Option<Vec<EeArc>>)
    ensures
        match r {
            Some(v) => decode_svg_arcs(fs.deep_view())
                == Some(v@.map_values(|a: EeArc| arc_val(a))),
            None => decode_svg_arcs(fs.deep_view()) is None,
        },
{
    proof {
        assert(fs.deep_view().len() == fs@.len());
    }
    if fs.len() < 2 {
        return None;
    }
    proof {
        assert(fs.deep_view()[1] == fs@[1]@);
    }
    let cmds = match parse_svg_path(fs[1].as_str()) {
        Ok(c) => c,
        Err(_) => { return None; },
    };
    let mut arcs: Vec<EeArc> = Vec::new();
    let mut px: i64 = 0;
    let mut py: i64 = 0;
    let mut i: usize = 0;
    proof {
        assert(arcs@.map_values(|a: EeArc| arc_val(a)) + svg_arcs_from(cmds@, 0, 0, 0)
            =~= svg_arcs_from(cmds@, 0, 0, 0));
    }
    while i < cmds.len()
        invariant
            0 <= i <= cmds@.len(),
            crate::num::fits_coord(px as int),
            crate::num::fits_coord(py as int),
            svg_cmds_fit(cmds@),
            svg_arcs_from(cmds@, 0, 0, 0) == arcs@.map_values(|a: EeArc| arc_val(a))
                + svg_arcs_from(cmds@, i as int, px as int, py as int),
        decreases cmds@.len() - i,
    {
        match cmds[i] {
            SvgCommand::MoveTo { x, y } => {
                proof {
                    assert(svg_cmd_fits(cmds@[i as int]));
                }
                px = x;
                py = y;
            },
            SvgCommand::LineTo { x, y } => {
                proof {
                    assert(svg_cmd_fits(cmds@[i as int]));
                }
                px = x;
                py = y;
            },
            SvgCommand::ClosePath => {
            },
            SvgCommand::Arc { rx, ry, sweep, x, y, .. } => {
                proof {
                    assert(svg_cmd_fits(cmds@[i as int]));
                    crate::convert::lemma_atan2_fx_range(
                        py as int - tdiv2(py as int + y as int),
                        px as int - tdiv2(px as int + x as int));
                    crate::convert::lemma_atan2_fx_range(
                        y as int - tdiv2(py as int + y as int),
                        x as int - tdiv2(px as int + x as int));
                }
                let cx = tdiv2_exec(px + x);
                let cy = tdiv2_exec(py + y);
                let rsum: i64 = if rx + ry < 0 { -(rx + ry) } else { rx + ry };
                let radius = tdiv2_exec(rsum);
                let sa = crate::convert::atan2_fx(py - cy, px - cx);
                let ea = crate::convert::atan2_fx(y - cy, x - cx);
                let angles: (i64, i64) = if sweep {
                    if ea < sa { (sa, ea + 3600000) } else { (sa, ea) }
                } else {
                    if sa < ea { (sa + 3600000, ea) } else { (sa, ea) }
                };
                let ghost old_arcs = arcs@;
                arcs.push(EeArc {
                    x: cx,
                    y: cy,
                    radius,
                    start_angle: angles.0,
                    end_angle: angles.1,
                    stroke_width: 10000,
                });
                proof {
                    let f = |a: EeArc| arc_val(a);
                    assert(arcs@.map_values(f) =~= old_arcs.map_values(f).push(arc_val(arcs@.last())));
                    assert(arc_val(arcs@.last())
                        == mk_svg_arc(px as int, py as int, rx as int, ry as int, sweep,
                            x as int, y as int));
                    assert(old_arcs.map_values(f)
                        + (seq![mk_svg_arc(px as int, py as int, rx as int, ry as int, sweep,
                            x as int, y as int)]
                            + svg_arcs_from(cmds@, i + 1, x as int, y as int))
                        =~= arcs@.map_values(f) + svg_arcs_from(cmds@, i + 1, x as int, y as int));
                }
                px = x;
                py = y;
            },
        }
        i = i + 1;
    }
    Some(arcs)
}


// --- footprint records ---

/// `PAD~shape~x~y~w~h~layer~net~number~hole_radius~points~rotation~id~hole_length`.
pub open spec fn decode_pad(fs: Seq<Seq<char>>) -> Option<PadV> {
    if fs.len() < 9 {
        None
    } else {
        match (parse_fixed_spec(fs[2]), parse_fixed_spec(fs[3]), parse_fixed_spec(fs[4]),
               parse_fixed_spec(fs[5]), parse_int_spec(fs[6])) {
            (Some(x), Some(y), Some(w), Some(h), Some(layer)) => Some(PadV {
                number: fs[8],
                shape: fs[1],
                x,
                y,
                width: w,
                height: h,
                rotation: dnum(fs, 11, 0),
                hole_radius: if fs.len() > 9 && dnum(fs, 9, 0) > 0 {
                    Some(dnum(fs, 9, 0))
                } else {
                    None
                },
                hole_length: if fs.len() > 13 && dnum(fs, 13, 0) > 0 {
                    Some(dnum(fs, 13, 0))
                } else {
                    None
                },
                points: if fs.len() > 10 { fs[10] } else { Seq::<char>::empty() },
                layer_id: layer,
            }),
            _ => None,
        }
    }
}

/// `TRACK~width~layer~net~points~…`.
pub open spec fn decode_track(fs: Seq<Seq<char>>) -> Option<TrackV> {
    if fs.len() < 5 {
        None
    } else {
        match (parse_fixed_spec(fs[1]), parse_int_spec(fs[2])) {
            (Some(w), Some(layer)) => Some(TrackV {
                stroke_width: w,
                layer_id: layer,
                net: fs[3],
                points: fs[4],
            }),
            _ => None,
        }
    }
}

/// `CIRCLE~cx~cy~r~…` in the footprint stream: never filled.
pub open spec fn decode_fp_circle(fs: Seq<Seq<char>>) -> Option<CircleV> {
    if fs.len() < 5 {
        None
    } else {
        match (parse_fixed_spec(fs[1]), parse_fixed_spec(fs[2]), parse_fixed_spec(fs[3])) {
            (Some(cx), Some(cy), Some(r)) => Some(CircleV {
                cx, cy, radius: r, stroke_width: 10000, fill: false,
            }),
            _ => None,
        }
    }
}

/// `ARC~width~layer~x~y~r~start~end~…` (coordinates from index 2 on).
pub open spec fn decode_fp_arc(fs: Seq<Seq<char>>) -> Option<ArcV> {
    if fs.len() < 7 {
        None
    } else {
        match (parse_fixed_spec(fs[2]), parse_fixed_spec(fs[3]), parse_fixed_spec(fs[4]),
               parse_fixed_spec(fs[5]), parse_fixed_spec(fs[6])) {
            (Some(x), Some(y), Some(r), Some(sa), Some(ea)) => Some(ArcV {
                x, y, radius: r, start_angle: sa, end_angle: ea, stroke_width: 10000,
            }),
            _ => None,
        }
    }
}

/// `RECT~…~x~y~w~h~…` (coordinates from index 2 on): never filled.
pub open spec fn decode_fp_rect(fs: Seq<Seq<char>>) -> Option<RectV> {
    if fs.len() < 6 {
        None
    } else {
        match (parse_fixed_spec(fs[2]), parse_fixed_spec(fs[3]), parse_fixed_spec(fs[4]),
               parse_fixed_spec(fs[5])) {
            (Some(x), Some(y), Some(w), Some(h)) => Some(RectV {
                x, y, width: w, height: h, stroke_width: 10000, fill: false,
            }),
            _ => None,
        }
    }
}

/// `TEXT~…~x~y~text~…` (position at indices 3 and 4).
pub open spec fn decode_fp_text(fs: Seq<Seq<char>>) -> Option<TextV> {
    if fs.len() < 6 {
        None
    } else {
        match (parse_fixed_spec(fs[3]), parse_fixed_spec(fs[4])) {
            (Some(x), Some(y)) => Some(TextV {
                text: fs[5], x, y, rotation: 0, font_size: 120000,
            }),
            _ => None,
        }
    }
}

/// `HOLE~x~y~radius~…`.
pub open spec fn decode_hole(fs: Seq<Seq<char>>) -> Option<HoleV> {
    if fs.len() < 4 {
        None
    } else {
        match (parse_fixed_spec(fs[1]), parse_fixed_spec(fs[2]), parse_fixed_spec(fs[3])) {
            (Some(x), Some(y), Some(r)) => Some(HoleV { x, y, radius: r }),
            _ => None,
        }
    }
}

/// `VIA~x~y~diameter~net~radius~…`.
pub open spec fn decode_via(fs: Seq<Seq<char>>) -> Option<ViaV> {
    if fs.len() < 6 {
        None
    } else {
        match (parse_fixed_spec(fs[1]), parse_fixed_spec(fs[2]), parse_fixed_spec(fs[3]),
               parse_fixed_spec(fs[5])) {
            (Some(x), Some(y), Some(d), Some(r)) => Some(ViaV {
                x, y, diameter: d, net: fs[4], radius: r,
            }),
            _ => None,
        }
    }
}

/// `SVGNODE~layer~path~…`.
pub open spec fn decode_svgnode(fs: Seq<Seq<char>>) -> Option<SvgNodeV> {
    if fs.len() < 3 {
        None
    } else {
        Some(SvgNodeV { path: fs[2], layer: fs[1] })
    }
}

fn parse_pad(fs: &Vec<String>) -> (r: Option<EePad>)
    ensures
        match r {
            Some(v) => decode_pad(fs.deep_view()) == Some(pad_val(v)),
            None => decode_pad(fs.deep_view()) is None,
        },
{
    proof {
        assert(fs.deep_view().len() == fs@.len());
    }
    if fs.len() < 9 {
        return None;
    }
    let x = match fixed_at(fs, 2) { Some(v) => v, None => { return None; } };
    let y = match fixed_at(fs, 3) { Some(v) => v, None => { return None; } };
    let width = match fixed_at(fs, 4) { Some(v) => v, None => { return None; } };
    let height = match fixed_at(fs, 5) { Some(v) => v, None => { return None; } };
    proof {
        assert(fs.deep_view()[6] == fs@[6]@);
        assert(fs.deep_view()[8] == fs@[8]@);
        assert(fs.deep_view()[1] == fs@[1]@);
    }
    let layer_id = match parse_int(fs[6].as_str()) { Some(v) => v, None => { return None; } };
    let number = fs[8].clone();
    let shape = fs[1].clone();
    let hr = fixed_or(fs, 9, 0);
    let hole_radius: Option<i64> = if fs.len() > 9 && hr > 0 { Some(hr) } else { None };
    let hl = fixed_or(fs, 13, 0);
    let hole_length: Option<i64> = if fs.len() > 13 && hl > 0 { Some(hl) } else { None };
    let points: String = if fs.len() > 10 {
        proof {
            assert(fs.deep_view()[10] == fs@[10]@);
        }
        fs[10].clone()
    } else {
        String::new()
    };
    let rotation = fixed_or(fs, 11, 0);
    Some(EePad {
        number, shape, x, y, width, height, rotation, hole_radius, hole_length, points, layer_id,
    })
}

fn parse_track(fs: &Vec<String>) -> (r: Option<EeTrack>)
    ensures
        match r {
            Some(v) => decode_track(fs.deep_view()) == Some(track_val(v)),
            None => decode_track(fs.deep_view()) is None,
        },
{
    proof {
        assert(fs.deep_view().len() == fs@.len());
    }
    if fs.len() < 5 {
        return None;
    }
    let stroke_width = match fixed_at(fs, 1) { Some(v) => v, None => { return None; } };
    proof {
        assert(fs.deep_view()[2] == fs@[2]@);
        assert(fs.deep_view()[3] == fs@[3]@);
        assert(fs.deep_view()[4] == fs@[4]@);
    }
    let layer_id = match parse_int(fs[2].as_str()) { Some(v) => v, None => { return None; } };
    let net = fs[3].clone();
    let points = fs[4].clone();
    Some(EeTrack { stroke_width, layer_id, net, points })
}

fn parse_fp_circle(fs: &Vec<String>) -> (r: Option<EeCircle>)
    ensures
        match r {
            Some(v) => decode_fp_circle(fs.deep_view()) == Some(circle_val(v)),
            None => decode_fp_circle(fs.deep_view()) is None,
        },
{
    proof {
        assert(fs.deep_view().len() == fs@.len());
    }
    if fs.len() < 5 {
        return None;
    }
    let cx = match fixed_at(fs, 1) { Some(v) => v, None => { return None; } };
    let cy = match fixed_at(fs, 2) { Some(v) => v, None => { return None; } };
    let radius = match fixed_at(fs, 3) { Some(v) => v, None => { return None; } };
    Some(EeCircle { cx, cy, radius, stroke_width: 10000, fill: false })
}

fn parse_fp_arc(fs: &Vec<String>) -> (r: Option<EeArc>)
    ensures
        match r {
            Some(v) => decode_fp_arc(fs.deep_view()) == Some(arc_val(v)),
            None => decode_fp_arc(fs.deep_view()) is None,
        },
{
    proof {
        assert(fs.deep_view().len() == fs@.len());
    }
    if fs.len() < 7 {
        return None;
    }
    let x = match fixed_at(fs, 2) { Some(v) => v, None => { return None; } };
    let y = match fixed_at(fs, 3) { Some(v) => v, None => { return None; } };
    let radius = match fixed_at(fs, 4) { Some(v) => v, None => { return None; } };
    let start_angle = match fixed_at(fs, 5) { Some(v) => v, None => { return None; } };
    let end_angle = match fixed_at(fs, 6) { Some(v) => v, None => { return None; } };
    Some(EeArc { x, y, radius, start_angle, end_angle, stroke_width: 10000 })
}

fn parse_fp_rect(fs: &Vec<String>) -> (r: Option<EeRectangle>)
    ensures
        match r {
            Some(v) => decode_fp_rect(fs.deep_view()) == Some(rect_val(v)),
            None => decode_fp_rect(fs.deep_view()) is None,
        },
{
    proof {
        assert(fs.deep_view().len() == fs@.len());
    }
    if fs.len() < 6 {
        return None;
    }
    let x = match fixed_at(fs, 2) { Some(v) => v, None => { return None; } };
    let y = match fixed_at(fs, 3) { Some(v) => v, None => { return None; } };
    let width = match fixed_at(fs, 4) { Some(v) => v, None => { return None; } };
    let height = match fixed_at(fs, 5) { Some(v) => v, None => { return None; } };
    Some(EeRectangle { x, y, width, height, stroke_width: 10000, fill: false })
}

fn parse_fp_text(fs: &Vec<String>) -> (r: Option<EeText>)
    ensures
        match r {
            Some(v) => decode_fp_text(fs.deep_view()) == Some(text_val(v)),
            None => decode_fp_text(fs.deep_view()) is None,
        },
{
    proof {
        assert(fs.deep_view().len() == fs@.len());
    }
    if fs.len() < 6 {
        return None;
    }
    let x = match fixed_at(fs, 3) { Some(v) => v, None => { return None; } };
    let y = match fixed_at(fs, 4) { Some(v) => v, None => { return None; } };
    proof {
        assert(fs.deep_view()[5] == fs@[5]@);
    }
    let text = fs[5].clone();
    Some(EeText { text, x, y, rotation: 0, font_size: 120000 })
}

fn parse_hole(fs: &Vec<String>) -> (r: Option<EeHole>)
    ensures
        match r {
            Some(v) => decode_hole(fs.deep_view()) == Some(hole_val(v)),
            None => decode_hole(fs.deep_view()) is None,
        },
{
    proof {
        assert(fs.deep_view().len() == fs@.len());
    }
    if fs.len() < 4 {
        return None;
    }
    let x = match fixed_at(fs, 1) { Some(v) => v, None => { return None; } };
    let y = match fixed_at(fs, 2) { Some(v) => v, None => { return None; } };
    let radius = match fixed_at(fs, 3) { Some(v) => v, None => { return None; } };
    Some(EeHole { x, y, radius })
}

fn parse_via(fs: &Vec<String>) -> (r: Option<EeVia>)
    ensures
        match r {
            Some(v) => decode_via(fs.deep_view()) == Some(via_val(v)),
            None => decode_via(fs.deep_view()) is None,
        },
{
    proof {
        assert(fs.deep_view().len() == fs@.len());
    }
    if fs.len() < 6 {
        return None;
    }
    let x = match fixed_at(fs, 1) { Some(v) => v, None => { return None; } };
    let y = match fixed_at(fs, 2) { Some(v) => v, None => { return None; } };
    let diameter = match fixed_at(fs, 3) { Some(v) => v, None => { return None; } };
    let radius = match fixed_at(fs, 5) { Some(v) => v, None => { return None; } };
    proof {
        assert(fs.deep_view()[4] == fs@[4]@);
    }
    let net = fs[4].clone();
    Some(EeVia { x, y, diameter, net, radius })
}

fn parse_svg_node(fs: &Vec<String>) -> (r: Option<EeSvgNode>)
    ensures
        match r {
            Some(v) => decode_svgnode(fs.deep_view()) == Some(svg_node_val(v)),
            None => decode_svgnode(fs.deep_view()) is None,
        },
{
    proof {
        assert(fs.deep_view().len() == fs@.len());
    }
    if fs.len() < 3 {
        return None;
    }
    proof {
        assert(fs.deep_view()[1] == fs@[1]@);
        assert(fs.deep_view()[2] == fs@[2]@);
    }
    let path = fs[2].clone();
    let layer = fs[1].clone();
    Some(EeSvgNode { path, stroke_width: 10000, layer })
}


// --- the whole streams ---

/// Whether an `A` record carries an SVG path rather than the traditional
/// numeric layout: the trimmed field begins with `M`.
pub open spec fn svg_arc_form(s: Seq<char>) -> bool {
    trim_spec(s).len() > 0 && trim_spec(s)[0] == 'M'
}

/// The decoded symbol, as ghost data.
pub ghost struct SymV {
    pub name: Seq<char>,
    pub pins: Seq<PinV>,
    pub rectangles: Seq<RectV>,
    pub circles: Seq<CircleV>,
    pub ellipses: Seq<EllipseV>,
    pub arcs: Seq<ArcV>,
    pub polylines: Seq<PolyV>,
    pub polygons: Seq<PolyV>,
    pub paths: Seq<PathV>,
    pub texts: Seq<TextV>,
}

pub open spec fn sym_init() -> SymV {
    SymV {
        name: Seq::<char>::empty(),
        pins: Seq::<PinV>::empty(),
        rectangles: Seq::<RectV>::empty(),
        circles: Seq::<CircleV>::empty(),
        ellipses: Seq::<EllipseV>::empty(),
        arcs: Seq::<ArcV>::empty(),
        polylines: Seq::<PolyV>::empty(),
        polygons: Seq::<PolyV>::empty(),
        paths: Seq::<PathV>::empty(),
        texts: Seq::<TextV>::empty(),
    }
}

/// One record applied to the symbol state: the designator selects the
/// routine, and a record its routine rejects leaves the state unchanged.
pub open spec fn sym_step(st: SymV, rec: Seq<char>) -> SymV {
    let fs = split_spec(rec, '~');
    let d = fs[0];
    if d == "P"@ {
        match decode_pin(rec) {
            Some(p) => SymV { pins: st.pins.push(p), ..st },
            None => st,
        }
    } else if d == "R"@ {
        match decode_rect(fs) {
            Some(v) => SymV { rectangles: st.rectangles.push(v), ..st },
            None => st,
        }
    } else if d == "C"@ {
        match decode_circle(fs) {
            Some(v) => SymV { circles: st.circles.push(v), ..st },
            None => st,
        }
    } else if d == "E"@ {
        match decode_ellipse(fs) {
            Some(v) => SymV { ellipses: st.ellipses.push(v), ..st },
            None => st,
        }
    } else if d == "A"@ {
        if fs.len() > 1 && svg_arc_form(fs[1]) {
            match decode_svg_arcs(fs) {
                Some(arcs) => SymV { arcs: st.arcs + arcs, ..st },
                None => st,
            }
        } else {
            match decode_arc(fs) {
                Some(v) => SymV { arcs: st.arcs.push(v), ..st },
                None => st,
            }
        }
    } else if d == "PL"@ {
        match decode_polyline(fs) {
            Some(v) => SymV { polylines: st.polylines.push(v), ..st },
            None => st,
        }
    } else if d == "PG"@ {
        match decode_polygon(fs) {
            Some(v) => SymV { polygons: st.polygons.push(v), ..st },
            None => st,
        }
    } else if d == "PT"@ {
        match decode_pt_path(fs) {
            Some(v) => SymV { polygons: st.polygons.push(v), ..st },
            None => st,
        }
    } else if d == "T"@ {
        match decode_text(fs) {
            Some(v) => SymV { texts: st.texts.push(v), ..st },
            None => st,
        }
    } else if d == "PATH"@ {
        match decode_path(fs) {
            Some(v) => SymV { paths: st.paths.push(v), ..st },
            None => st,
        }
    } else if d == "LIB"@ {
        if fs.len() > 3 {
            SymV { name: fs[3], ..st }
        } else {
            st
        }
    } else {
        st
    }
}

/// The first `i` records folded over the initial state.
pub open spec fn sym_fold(recs: Seq<Seq<char>>, i: int) -> SymV
    decreases i,
{
    if i <= 0 {
        sym_init()
    } else {
        sym_step(sym_fold(recs, i - 1), recs[i - 1])
    }
}

/// The executable symbol carries exactly the ghost data.
pub open spec fn sym_matches(s: EeSymbol, v: SymV) -> bool {
    &&& s.name@ == v.name
    &&& s.pins@.map_values(|p: EePin| pin_val(p)) == v.pins
    &&& s.rectangles@.map_values(|p: EeRectangle| rect_val(p)) == v.rectangles
    &&& s.circles@.map_values(|p: EeCircle| circle_val(p)) == v.circles
    &&& s.ellipses@.map_values(|p: EeEllipse| ellipse_val(p)) == v.ellipses
    &&& s.arcs@.map_values(|p: EeArc| arc_val(p)) == v.arcs
    &&& s.polylines@.map_values(|p: EePolyline| polyline_val(p)) == v.polylines
    &&& s.polygons@.map_values(|p: EePolygon| polygon_val(p)) == v.polygons
    &&& s.paths@.map_values(|p: EePath| path_val(p)) == v.paths
    &&& s.texts@.map_values(|p: EeText| text_val(p)) == v.texts
}

pub struct SymbolImporter;

impl SymbolImporter {
    /// Decode a symbol shape stream.  Every record is decoded in
    /// isolation; a record its routine rejects is dropped, so the whole
    /// decode always succeeds and returns exactly the fold of the stream.
    /// The reference prefix defaults to `U`.
    pub fn parse(data_str: &Vec<String>) -> (r: Result<EeSymbol, crate::errors::AppError>)
        ensures
            r is Ok,
            sym_matches(r->Ok_0, sym_fold(data_str.deep_view(), data_str@.len() as int)),
            r->Ok_0.prefix@ == "U"@,
    {
        let ghost recs = data_str.deep_view();
        let mut symbol = EeSymbol {
            name: String::new(),
            prefix: String::new(),
            pins: Vec::new(),
            rectangles: Vec::new(),
            circles: Vec::new(),
            ellipses: Vec::new(),
            arcs: Vec::new(),
            polylines: Vec::new(),
            polygons: Vec::new(),
            paths: Vec::new(),
            texts: Vec::new(),
        };
        let mut j: usize = 0;
        proof {
            assert(recs.len() == data_str@.len());
            lemma_sym_matches_init(symbol, recs);
        }
        while j < data_str.len()
            invariant
                0 <= j <= data_str@.len(),
                recs == data_str.deep_view(),
                recs.len() == data_str@.len(),
                symbol.prefix@ == Seq::<char>::empty(),
                sym_matches(symbol, sym_fold(recs, j as int)),
            decreases data_str@.len() - j,
        {
            let ghost stv = sym_fold(recs, j as int);
            let rec = data_str[j].as_str();
            proof {
                assert(recs[j as int] == data_str@[j as int]@);
                assert(sym_fold(recs, j + 1) == sym_step(stv, recs[j as int]));
            }
            let fields = split_fields(rec, '~');
            let ghost fsv = split_spec(recs[j as int], '~');
            proof {
                assert(fields.deep_view() == fsv);
                assert(fields.deep_view()[0] == fields@[0]@);
            }
            let d = fields[0].as_str();
            if str_eq(d, "P") {
                match parse_pin(rec) {
                    Some(p) => {
                        let ghost old_pins = symbol.pins@;
                        symbol.pins.push(p);
                        proof {
                            let f = |q: EePin| pin_val(q);
                            assert(symbol.pins@.map_values(f)
                                =~= old_pins.map_values(f).push(pin_val(p)));
                        }
                    },
                    None => {},
                }
            } else if str_eq(d, "R") {
                match parse_rectangle(&fields) {
                    Some(v) => {
                        let ghost old_items = symbol.rectangles@;
                        symbol.rectangles.push(v);
                        proof {
                            let f = |q: EeRectangle| rect_val(q);
                            assert(symbol.rectangles@.map_values(f)
                                =~= old_items.map_values(f).push(rect_val(v)));
                        }
                    },
                    None => {},
                }
            } else if str_eq(d, "C") {
                match parse_circle(&fields) {
                    Some(v) => {
                        let ghost old_items = symbol.circles@;
                        symbol.circles.push(v);
                        proof {
                            let f = |q: EeCircle| circle_val(q);
                            assert(symbol.circles@.map_values(f)
                                =~= old_items.map_values(f).push(circle_val(v)));
                        }
                    },
                    None => {},
                }
            } else if str_eq(d, "E") {
                match parse_ellipse(&fields) {
                    Some(v) => {
                        let ghost old_items = symbol.ellipses@;
                        symbol.ellipses.push(v);
                        proof {
                            let f = |q: EeEllipse| ellipse_val(q);
                            assert(symbol.ellipses@.map_values(f)
                                =~= old_items.map_values(f).push(ellipse_val(v)));
                        }
                    },
                    None => {},
                }
            } else if str_eq(d, "A") {
                let svg_form = fields.len() > 1 && {
                    proof {
                        assert(fields.deep_view()[1] == fields@[1]@);
                    }
                    let t = trim_str(fields[1].as_str());
                    t.as_str().unicode_len() > 0 && t.as_str().get_char(0) == 'M'
                };
                if svg_form {
                    match parse_svg_arc(&fields) {
                        Some(mut new_arcs) => {
                            let ghost old_items = symbol.arcs@;
                            let ghost added = new_arcs@;
                            symbol.arcs.append(&mut new_arcs);
                            proof {
                                let f = |q: EeArc| arc_val(q);
                                assert(symbol.arcs@.map_values(f)
                                    =~= old_items.map_values(f) + added.map_values(f));
                            }
                        },
                        None => {},
                    }
                } else {
                    match parse_arc_traditional(&fields) {
                        Some(v) => {
                            let ghost old_items = symbol.arcs@;
                            symbol.arcs.push(v);
                            proof {
                                let f = |q: EeArc| arc_val(q);
                                assert(symbol.arcs@.map_values(f)
                                    =~= old_items.map_values(f).push(arc_val(v)));
                            }
                        },
                        None => {},
                    }
                }
            } else if str_eq(d, "PL") {
                match parse_polyline(&fields) {
                    Some(v) => {
                        let ghost old_items = symbol.polylines@;
                        symbol.polylines.push(v);
                        proof {
                            let f = |q: EePolyline| polyline_val(q);
                            assert(symbol.polylines@.map_values(f)
                                =~= old_items.map_values(f).push(polyline_val(v)));
                        }
                    },
                    None => {},
                }
            } else if str_eq(d, "PG") {
                match parse_polygon(&fields) {
                    Some(v) => {
                        let ghost old_items = symbol.polygons@;
                        symbol.polygons.push(v);
                        proof {
                            let f = |q: EePolygon| polygon_val(q);
                            assert(symbol.polygons@.map_values(f)
                                =~= old_items.map_values(f).push(polygon_val(v)));
                        }
                    },
                    None => {},
                }
            } else if str_eq(d, "PT") {
                match parse_pt_path(&fields) {
                    Some(v) => {
                        let ghost old_items = symbol.polygons@;
                        symbol.polygons.push(v);
                        proof {
                            let f = |q: EePolygon| polygon_val(q);
                            assert(symbol.polygons@.map_values(f)
                                =~= old_items.map_values(f).push(polygon_val(v)));
                        }
                    },
                    None => {},
                }
            } else if str_eq(d, "T") {
                match parse_text(&fields) {
                    Some(v) => {
                        let ghost old_items = symbol.texts@;
                        symbol.texts.push(v);
                        proof {
                            let f = |q: EeText| text_val(q);
                            assert(symbol.texts@.map_values(f)
                                =~= old_items.map_values(f).push(text_val(v)));
                        }
                    },
                    None => {},
                }
            } else if str_eq(d, "PATH") {
                match parse_path_record(&fields) {
                    Some(v) => {
                        let ghost old_items = symbol.paths@;
                        symbol.paths.push(v);
                        proof {
                            let f = |q: EePath| path_val(q);
                            assert(symbol.paths@.map_values(f)
                                =~= old_items.map_values(f).push(path_val(v)));
                        }
                    },
                    None => {},
                }
            } else if str_eq(d, "LIB") {
                if fields.len() > 3 {
                    proof {
                        assert(fields.deep_view()[3] == fields@[3]@);
                    }
                    symbol.name = fields[3].clone();
                }
            }
            j = j + 1;
        }
        if symbol.prefix.as_str().unicode_len() == 0 {
            symbol.prefix = String::from_str("U");
        }
        proof {
            assert(symbol.prefix@ =~= "U"@);
        }
        Ok(symbol)
    }
}

proof fn lemma_sym_matches_init(s: EeSymbol, recs: Seq<Seq<char>>)
    requires
        s.name@ == Seq::<char>::empty(),
        s.pins@ == Seq::<EePin>::empty(),
        s.rectangles@ == Seq::<EeRectangle>::empty(),
        s.circles@ == Seq::<EeCircle>::empty(),
        s.ellipses@ == Seq::<EeEllipse>::empty(),
        s.arcs@ == Seq::<EeArc>::empty(),
        s.polylines@ == Seq::<EePolyline>::empty(),
        s.polygons@ == Seq::<EePolygon>::empty(),
        s.paths@ == Seq::<EePath>::empty(),
        s.texts@ == Seq::<EeText>::empty(),
    ensures
        sym_matches(s, sym_fold(recs, 0)),
{
    assert(s.pins@.map_values(|p: EePin| pin_val(p)) =~= Seq::<PinV>::empty());
    assert(s.rectangles@.map_values(|p: EeRectangle| rect_val(p)) =~= Seq::<RectV>::empty());
    assert(s.circles@.map_values(|p: EeCircle| circle_val(p)) =~= Seq::<CircleV>::empty());
    assert(s.ellipses@.map_values(|p: EeEllipse| ellipse_val(p)) =~= Seq::<EllipseV>::empty());
    assert(s.arcs@.map_values(|p: EeArc| arc_val(p)) =~= Seq::<ArcV>::empty());
    assert(s.polylines@.map_values(|p: EePolyline| polyline_val(p)) =~= Seq::<PolyV>::empty());
    assert(s.polygons@.map_values(|p: EePolygon| polygon_val(p)) =~= Seq::<PolyV>::empty());
    assert(s.paths@.map_values(|p: EePath| path_val(p)) =~= Seq::<PathV>::empty());
    assert(s.texts@.map_values(|p: EeText| text_val(p)) =~= Seq::<TextV>::empty());
}


/// The decoded footprint, as ghost data.
pub ghost struct FpV {
    pub pads: Seq<PadV>,
    pub tracks: Seq<TrackV>,
    pub circles: Seq<CircleV>,
    pub arcs: Seq<ArcV>,
    pub rectangles: Seq<RectV>,
    pub texts: Seq<TextV>,
    pub holes: Seq<HoleV>,
    pub vias: Seq<ViaV>,
    pub svg_nodes: Seq<SvgNodeV>,
}

pub open spec fn fp_init() -> FpV {
    FpV {
        pads: Seq::<PadV>::empty(),
        tracks: Seq::<TrackV>::empty(),
        circles: Seq::<CircleV>::empty(),
        arcs: Seq::<ArcV>::empty(),
        rectangles: Seq::<RectV>::empty(),
        texts: Seq::<TextV>::empty(),
        holes: Seq::<HoleV>::empty(),
        vias: Seq::<ViaV>::empty(),
        svg_nodes: Seq::<SvgNodeV>::empty(),
    }
}

/// One record applied to the footprint state.
pub open spec fn fp_step(st: FpV, rec: Seq<char>) -> FpV {
    let fs = split_spec(rec, '~');
    let d = fs[0];
    if d == "PAD"@ {
        match decode_pad(fs) {
            Some(v) => FpV { pads: st.pads.push(v), ..st },
            None => st,
        }
    } else if d == "TRACK"@ {
        match decode_track(fs) {
            Some(v) => FpV { tracks: st.tracks.push(v), ..st },
            None => st,
        }
    } else if d == "CIRCLE"@ {
        match decode_fp_circle(fs) {
            Some(v) => FpV { circles: st.circles.push(v), ..st },
            None => st,
        }
    } else if d == "ARC"@ {
        match decode_fp_arc(fs) {
            Some(v) => FpV { arcs: st.arcs.push(v), ..st },
            None => st,
        }
    } else if d == "RECT"@ {
        match decode_fp_rect(fs) {
            Some(v) => FpV { rectangles: st.rectangles.push(v), ..st },
            None => st,
        }
    } else if d == "TEXT"@ {
        match decode_fp_text(fs) {
            Some(v) => FpV { texts: st.texts.push(v), ..st },
            None => st,
        }
    } else if d == "HOLE"@ {
        match decode_hole(fs) {
            Some(v) => FpV { holes: st.holes.push(v), ..st },
            None => st,
        }
    } else if d == "VIA"@ {
        match decode_via(fs) {
            Some(v) => FpV { vias: st.vias.push(v), ..st },
            None => st,
        }
    } else if d == "SVGNODE"@ {
        match decode_svgnode(fs) {
            Some(v) => FpV { svg_nodes: st.svg_nodes.push(v), ..st },
            None => st,
        }
    } else {
        st
    }
}

pub open spec fn fp_fold(recs: Seq<Seq<char>>, i: int) -> FpV
    decreases i,
{
    if i <= 0 {
        fp_init()
    } else {
        fp_step(fp_fold(recs, i - 1), recs[i - 1])
    }
}

pub open spec fn fp_matches(s: EeFootprint, v: FpV) -> bool {
    &&& s.pads@.map_values(|p: EePad| pad_val(p)) == v.pads
    &&& s.tracks@.map_values(|p: EeTrack| track_val(p)) == v.tracks
    &&& s.circles@.map_values(|p: EeCircle| circle_val(p)) == v.circles
    &&& s.arcs@.map_values(|p: EeArc| arc_val(p)) == v.arcs
    &&& s.rectangles@.map_values(|p: EeRectangle| rect_val(p)) == v.rectangles
    &&& s.texts@.map_values(|p: EeText| text_val(p)) == v.texts
    &&& s.holes@.map_values(|p: EeHole| hole_val(p)) == v.holes
    &&& s.vias@.map_values(|p: EeVia| via_val(p)) == v.vias
    &&& s.svg_nodes@.map_values(|p: EeSvgNode| svg_node_val(p)) == v.svg_nodes
}

pub struct FootprintImporter;

impl FootprintImporter {
    /// Decode a footprint shape stream: exactly the fold of the records,
    /// with rejected records dropped.  The footprint name stays empty; the
    /// orchestrator names the part.
    pub fn parse(shape_data: &Vec<String>) -> (r: Result<EeFootprint, crate::errors::AppError>)
        ensures
            r is Ok,
            fp_matches(r->Ok_0, fp_fold(shape_data.deep_view(), shape_data@.len() as int)),
            r->Ok_0.name@ == Seq::<char>::empty(),
    {
        let ghost recs = shape_data.deep_view();
        let mut footprint = EeFootprint {
            name: String::new(),
            pads: Vec::new(),
            tracks: Vec::new(),
            circles: Vec::new(),
            arcs: Vec::new(),
            rectangles: Vec::new(),
            texts: Vec::new(),
            holes: Vec::new(),
            vias: Vec::new(),
            svg_nodes: Vec::new(),
        };
        let mut j: usize = 0;
        proof {
            assert(recs.len() == shape_data@.len());
            assert(footprint.pads@.map_values(|p: EePad| pad_val(p)) =~= Seq::<PadV>::empty());
            assert(footprint.tracks@.map_values(|p: EeTrack| track_val(p))
                =~= Seq::<TrackV>::empty());
            assert(footprint.circles@.map_values(|p: EeCircle| circle_val(p))
                =~= Seq::<CircleV>::empty());
            assert(footprint.arcs@.map_values(|p: EeArc| arc_val(p)) =~= Seq::<ArcV>::empty());
            assert(footprint.rectangles@.map_values(|p: EeRectangle| rect_val(p))
                =~= Seq::<RectV>::empty());
            assert(footprint.texts@.map_values(|p: EeText| text_val(p)) =~= Seq::<TextV>::empty());
            assert(footprint.holes@.map_values(|p: EeHole| hole_val(p)) =~= Seq::<HoleV>::empty());
            assert(footprint.vias@.map_values(|p: EeVia| via_val(p)) =~= Seq::<ViaV>::empty());
            assert(footprint.svg_nodes@.map_values(|p: EeSvgNode| svg_node_val(p))
                =~= Seq::<SvgNodeV>::empty());
        }
        while j < shape_data.len()
            invariant
                0 <= j <= shape_data@.len(),
                recs == shape_data.deep_view(),
                recs.len() == shape_data@.len(),
                footprint.name@ == Seq::<char>::empty(),
                fp_matches(footprint, fp_fold(recs, j as int)),
            decreases shape_data@.len() - j,
        {
            let ghost stv = fp_fold(recs, j as int);
            let rec = shape_data[j].as_str();
            proof {
                assert(recs[j as int] == shape_data@[j as int]@);
                assert(fp_fold(recs, j + 1) == fp_step(stv, recs[j as int]));
            }
            let fields = split_fields(rec, '~');
            proof {
                assert(fields.deep_view() == split_spec(recs[j as int], '~'));
                assert(fields.deep_view()[0] == fields@[0]@);
            }
            let d = fields[0].as_str();
            if str_eq(d, "PAD") {
                match parse_pad(&fields) {
                    Some(v) => {
                        let ghost old_items = footprint.pads@;
                        footprint.pads.push(v);
                        proof {
                            let f = |q: EePad| pad_val(q);
                            assert(footprint.pads@.map_values(f)
                                =~= old_items.map_values(f).push(pad_val(v)));
                        }
                    },
                    None => {},
                }
            } else if str_eq(d, "TRACK") {
                match parse_track(&fields) {
                    Some(v) => {
                        let ghost old_items = footprint.tracks@;
                        footprint.tracks.push(v);
                        proof {
                            let f = |q: EeTrack| track_val(q);
                            assert(footprint.tracks@.map_values(f)
                                =~= old_items.map_values(f).push(track_val(v)));
                        }
                    },
                    None => {},
                }
            } else if str_eq(d, "CIRCLE") {
                match parse_fp_circle(&fields) {
                    Some(v) => {
                        let ghost old_items = footprint.circles@;
                        footprint.circles.push(v);
                        proof {
                            let f = |q: EeCircle| circle_val(q);
                            assert(footprint.circles@.map_values(f)
                                =~= old_items.map_values(f).push(circle_val(v)));
                        }
                    },
                    None => {},
                }
            } else if str_eq(d, "ARC") {
                match parse_fp_arc(&fields) {
                    Some(v) => {
                        let ghost old_items = footprint.arcs@;
                        footprint.arcs.push(v);
                        proof {
                            let f = |q: EeArc| arc_val(q);
                            assert(footprint.arcs@.map_values(f)
                                =~= old_items.map_values(f).push(arc_val(v)));
                        }
                    },
                    None => {},
                }
            } else if str_eq(d, "RECT") {
                match parse_fp_rect(&fields) {
                    Some(v) => {
                        let ghost old_items = footprint.rectangles@;
                        footprint.rectangles.push(v);
                        proof {
                            let f = |q: EeRectangle| rect_val(q);
                            assert(footprint.rectangles@.map_values(f)
                                =~= old_items.map_values(f).push(rect_val(v)));
                        }
                    },
                    None => {},
                }
            } else if str_eq(d, "TEXT") {
                match parse_fp_text(&fields) {
                    Some(v) => {
                        let ghost old_items = footprint.texts@;
                        footprint.texts.push(v);
                        proof {
                            let f = |q: EeText| text_val(q);
                            assert(footprint.texts@.map_values(f)
                                =~= old_items.map_values(f).push(text_val(v)));
                        }
                    },
                    None => {},
                }
            } else if str_eq(d, "HOLE") {
                match parse_hole(&fields) {
                    Some(v) => {
                        let ghost old_items = footprint.holes@;
                        footprint.holes.push(v);
                        proof {
                            let f = |q: EeHole| hole_val(q);
                            assert(footprint.holes@.map_values(f)
                                =~= old_items.map_values(f).push(hole_val(v)));
                        }
                    },
                    None => {},
                }
            } else if str_eq(d, "VIA") {
                match parse_via(&fields) {
                    Some(v) => {
                        let ghost old_items = footprint.vias@;
                        footprint.vias.push(v);
                        proof {
                            let f = |q: EeVia| via_val(q);
                            assert(footprint.vias@.map_values(f)
                                =~= old_items.map_values(f).push(via_val(v)));
                        }
                    },
                    None => {},
                }
            } else if str_eq(d, "SVGNODE") {
                match parse_svg_node(&fields) {
                    Some(v) => {
                        let ghost old_items = footprint.svg_nodes@;
                        footprint.svg_nodes.push(v);
                        proof {
                            let f = |q: EeSvgNode| svg_node_val(q);
                            assert(footprint.svg_nodes@.map_values(f)
                                =~= old_items.map_values(f).push(svg_node_val(v)));
                        }
                    },
                    None => {},
                }
            }
            j = j + 1;
        }
        Ok(footprint)
    }
}


// --- generic text helpers used by the emitters ---

/// ASCII letters folded to upper case, other characters unchanged.
pub open spec fn ascii_upper_char(c: char) -> char {
    if 'a' <= c && c <= 'z' {
        ((c as int - 32) as char)
    } else {
        c
    }
}

pub open spec fn ascii_upper(s: Seq<char>) -> Seq<char> {
    s.map_values(|c: char| ascii_upper_char(c))
}

/// Fold ASCII letters to upper case.
pub fn to_ascii_upper(s: &str) -> (r: String)
    ensures
        r@ == ascii_upper(s@),
{
    let n = s.unicode_len();
    let mut out = String::new();
    let mut i: usize = 0;
    proof {
        assert(out@ =~= ascii_upper(s@.take(0)));
    }
    while i < n
        invariant
            0 <= i <= n,
            n == s@.len(),
            out@ == ascii_upper(s@.take(i as int)),
        decreases n - i,
    {
        let c = s.get_char(i);
        let u = c as u32;
        if 97 <= u && u <= 122 {
            let uc = char_from_upper(c);
            append_char_str(&mut out, uc);
        } else {
            let piece = s.substring_char(i, i + 1);
            proof {
                assert(piece@ =~= seq![s@[i as int]]);
            }
            out.append(piece);
        }
        proof {
            assert(out@ =~= ascii_upper(s@.take(i + 1))) by {
                assert(s@.take(i + 1).drop_last() =~= s@.take(i as int));
                assert(ascii_upper(s@.take(i + 1))
                    =~= ascii_upper(s@.take(i as int)).push(ascii_upper_char(s@[i as int])));
            }
        }
        i = i + 1;
    }
    proof {
        assert(s@.take(n as int) =~= s@);
    }
    out
}

fn char_from_upper(c: char) -> (r: char)
    requires
        97 <= c as int <= 122,
    ensures
        r == ascii_upper_char(c),
{
    if c == 'a' { 'A' } else if c == 'b' { 'B' } else if c == 'c' { 'C' }
    else if c == 'd' { 'D' } else if c == 'e' { 'E' } else if c == 'f' { 'F' }
    else if c == 'g' { 'G' } else if c == 'h' { 'H' } else if c == 'i' { 'I' }
    else if c == 'j' { 'J' } else if c == 'k' { 'K' } else if c == 'l' { 'L' }
    else if c == 'm' { 'M' } else if c == 'n' { 'N' } else if c == 'o' { 'O' }
    else if c == 'p' { 'P' } else if c == 'q' { 'Q' } else if c == 'r' { 'R' }
    else if c == 's' { 'S' } else if c == 't' { 'T' } else if c == 'u' { 'U' }
    else if c == 'v' { 'V' } else if c == 'w' { 'W' } else if c == 'x' { 'X' }
    else if c == 'y' { 'Y' } else { 'Z' }
}

fn append_char_str(out: &mut String, c: char)
    requires
        65 <= c as int <= 90,
    ensures
        final(out)@ == old(out)@.push(c),
{
    let s: &'static str = if c == 'A' { "A" } else if c == 'B' { "B" } else if c == 'C' { "C" }
    else if c == 'D' { "D" } else if c == 'E' { "E" } else if c == 'F' { "F" }
    else if c == 'G' { "G" } else if c == 'H' { "H" } else if c == 'I' { "I" }
    else if c == 'J' { "J" } else if c == 'K' { "K" } else if c == 'L' { "L" }
    else if c == 'M' { "M" } else if c == 'N' { "N" } else if c == 'O' { "O" }
    else if c == 'P' { "P" } else if c == 'Q' { "Q" } else if c == 'R' { "R" }
    else if c == 'S' { "S" } else if c == 'T' { "T" } else if c == 'U' { "U" }
    else if c == 'V' { "V" } else if c == 'W' { "W" } else if c == 'X' { "X" }
    else if c == 'Y' { "Y" } else { "Z" };
    proof {
        reveal_strlit("A"); reveal_strlit("B"); reveal_strlit("C"); reveal_strlit("D");
        reveal_strlit("E"); reveal_strlit("F"); reveal_strlit("G"); reveal_strlit("H");
        reveal_strlit("I"); reveal_strlit("J"); reveal_strlit("K"); reveal_strlit("L");
        reveal_strlit("M"); reveal_strlit("N"); reveal_strlit("O"); reveal_strlit("P");
        reveal_strlit("Q"); reveal_strlit("R"); reveal_strlit("S"); reveal_strlit("T");
        reveal_strlit("U"); reveal_strlit("V"); reveal_strlit("W"); reveal_strlit("X");
        reveal_strlit("Y"); reveal_strlit("Z");
        if !(c == 'A' || c == 'B' || c == 'C' || c == 'D' || c == 'E' || c == 'F' || c == 'G'
            || c == 'H' || c == 'I' || c == 'J' || c == 'K' || c == 'L' || c == 'M' || c == 'N'
            || c == 'O' || c == 'P' || c == 'Q' || c == 'R' || c == 'S' || c == 'T' || c == 'U'
            || c == 'V' || c == 'W' || c == 'X' || c == 'Y' || c == 'Z') {
            assert(c as int != 65 && c as int != 66 && c as int != 67 && c as int != 68
                && c as int != 69 && c as int != 70 && c as int != 71 && c as int != 72
                && c as int != 73 && c as int != 74 && c as int != 75 && c as int != 76
                && c as int != 77 && c as int != 78 && c as int != 79 && c as int != 80
                && c as int != 81 && c as int != 82 && c as int != 83 && c as int != 84
                && c as int != 85 && c as int != 86 && c as int != 87 && c as int != 88
                && c as int != 89 && c as int != 90);
        }
    }
    out.append(s);
    proof {
        assert(out@ =~= old(out)@.push(c));
    }
}

/// `needle` occurs in `hay` starting at `i`.
pub open spec fn matches_at(hay: Seq<char>, needle: Seq<char>, i: int) -> bool {
    &&& 0 <= i
    &&& i + needle.len() <= hay.len()
    &&& hay.subrange(i, i + needle.len()) == needle
}

/// `needle` occurs somewhere in `hay`.
pub open spec fn contains_seq(hay: Seq<char>, needle: Seq<char>) -> bool {
    exists|i: int| matches_at(hay, needle, i)
}

/// Substring search.
pub fn str_contains(hay: &str, needle: &str) -> (r: bool)
    ensures
        r == contains_seq(hay@, needle@),
{
    let nh = hay.unicode_len();
    let nn = needle.unicode_len();
    if nn > nh {
        proof {
            assert(!contains_seq(hay@, needle@)) by {
                if contains_seq(hay@, needle@) {
                    let i = choose|i: int| matches_at(hay@, needle@, i);
                }
            }
        }
        return false;
    }
    if nn == 0 {
        proof {
            assert(hay@.subrange(0, 0) =~= needle@);
            assert(matches_at(hay@, needle@, 0));
        }
        return true;
    }
    let mut i: usize = 0;
    while i <= nh - nn
        invariant
            0 <= i <= nh - nn + 1,
            1 <= nn <= nh,
            nh == hay@.len(),
            nn == needle@.len(),
            forall|k: int| 0 <= k < i ==> !matches_at(hay@, needle@, k),
        decreases nh - nn - i + 1,
    {
        if match_here(hay, needle, i) {
            return true;
        }
        i = i + 1;
    }
    proof {
        assert(!contains_seq(hay@, needle@)) by {
            if contains_seq(hay@, needle@) {
                let k = choose|k: int| matches_at(hay@, needle@, k);
                assert(k < i);
            }
        }
    }
    false
}

fn match_here(hay: &str, needle: &str, i: usize) -> (r: bool)
    requires
        i + needle@.len() <= hay@.len(),
    ensures
        r == matches_at(hay@, needle@, i as int),
{
    let nn = needle.unicode_len();
    let nh = hay.unicode_len();
    let mut j: usize = 0;
    while j < nn
        invariant
            0 <= j <= nn,
            nn == needle@.len(),
            nh == hay@.len(),
            i + nn <= hay@.len(),
            forall|k: int| 0 <= k < j ==> hay@[i + k] == needle@[k],
        decreases nn - j,
    {
        if hay.get_char(i + j) != needle.get_char(j) {
            proof {
                assert(!matches_at(hay@, needle@, i as int)) by {
                    if matches_at(hay@, needle@, i as int) {
                        assert(hay@.subrange(i as int, i + nn)[j as int] == needle@[j as int]);
                    }
                }
            }
            return false;
        }
        j = j + 1;
    }
    proof {
        assert(hay@.subrange(i as int, i + nn) =~= needle@);
    }
    true
}

/// `s` begins with `prefix`.
pub open spec fn starts_with_seq(s: Seq<char>, prefix: Seq<char>) -> bool {
    matches_at(s, prefix, 0)
}

/// Prefix test.
pub fn str_starts_with(s: &str, prefix: &str) -> (r: bool)
    ensures
        r == starts_with_seq(s@, prefix@),
{
    let np = prefix.unicode_len();
    if np > s.unicode_len() {
        return false;
    }
    match_here(s, prefix, 0)
}


/// Ordering the sweep: with the flag set the traversal runs upward from
/// start to end, with it clear downward, over the same pair of raw
/// endpoint angles.
pub proof fn lemma_sweep_direction(sa: int, ea: int, sweep: bool)
    requires
        0 <= sa < 3600000,
        0 <= ea < 3600000,
    ensures
        sweep ==> sweep_adjust(sa, ea, sweep).0 <= sweep_adjust(sa, ea, sweep).1,
        !sweep ==> sweep_adjust(sa, ea, sweep).1 <= sweep_adjust(sa, ea, sweep).0,
{
}

/// Reversing the sweep flag negates the traversal direction: the upward
/// and the downward traversal of the same raw endpoint angles add up to a
/// full turn, or both vanish when the endpoints coincide.
pub proof fn lemma_sweep_reversal(sa: int, ea: int)
    requires
        0 <= sa < 3600000,
        0 <= ea < 3600000,
    ensures
        ({
            let up = sweep_adjust(sa, ea, true);
            let down = sweep_adjust(sa, ea, false);
            let forward = up.1 - up.0;
            let backward = down.0 - down.1;
            &&& forward >= 0
            &&& backward >= 0
            &&& (sa == ea ==> forward == 0 && backward == 0)
            &&& (sa != ea ==> forward + backward == 3600000)
        }),
{
}


/// The fill law of the symbol shapes: whenever a circle, rectangle or
/// ellipse record decodes, its fill flag is true exactly when the fill
/// field exists, is non-empty and is not the word `none`.
pub proof fn lemma_fill_semantics(fs: Seq<Seq<char>>)
    ensures
        match decode_circle(fs) {
            Some(c) => c.fill == (fs.len() > 7 && fs[7].len() > 0 && fs[7] != "none"@),
            None => true,
        },
        match decode_rect(fs) {
            Some(c) => c.fill == (fs.len() > 10 && fs[10].len() > 0 && fs[10] != "none"@),
            None => true,
        },
        match decode_ellipse(fs) {
            Some(c) => c.fill == (fs.len() > 8 && fs[8].len() > 0 && fs[8] != "none"@),
            None => true,
        },
{
}

} // verus!
