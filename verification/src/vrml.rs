//! The OBJ-to-VRML transcoder.
//!
//! A Wavefront mesh comes in as text: `v` lines carry vertex positions,
//! `f` lines carry one-based vertex indices, possibly with `/`-separated
//! texture and normal parts that are ignored, and `usemtl` lines select
//! the material of the faces that follow.  Faces are triangulated as
//! fans.  Vertex coordinates pass through verbatim, as the tokens they
//! arrived in; units are untouched.  The output is one VRML scene with a
//! single indexed face set whose per-face colour indices keep the mesh's
//! material partition; the mesh itself names no colours, so every palette
//! entry is the same gray.

use vstd::prelude::*;
use vstd::string::*;
use crate::lexer::{split_spec, split_fields, ws_split_from, split_whitespace_tokens, cat_map,
    lemma_cat_map_step, lemma_cat_map_full, sep_pos, lemma_sep_pos};
use crate::num::{parse_int_spec, parse_int, dec_i, fmt_i64};
use crate::errors::KicadError;

verus! {

/// The index part of a face token: the digits before the first `/`.
pub open spec fn face_token_index(t: Seq<char>) -> Option<int> {
    let p = sep_pos(t, '/');
    match parse_int_spec(t.take(p)) {
        Some(i) => if i >= 1 { Some(i - 1) } else { None },
        None => None,
    }
}

/// The zero-based indices of a face line, or nothing when any token is
/// unusable; the line is then dropped, never the mesh.
pub open spec fn face_indices(toks: Seq<Seq<char>>, i: int) -> Option<Seq<int>>
    decreases toks.len() - i when 1 <= i
{
    if i >= toks.len() {
        Some(Seq::<int>::empty())
    } else {
        match face_token_index(toks[i]) {
            Some(v) => match face_indices(toks, i + 1) {
                Some(rest) => Some(seq![v] + rest),
                None => None,
            },
            None => None,
        }
    }
}

/// The fan triangles of an index list.
pub open spec fn fan_triangles(idx: Seq<int>) -> Seq<(int, int, int)>
    decreases idx.len(),
{
    if idx.len() < 3 {
        Seq::<(int, int, int)>::empty()
    } else {
        fan_triangles(idx.drop_last()) + seq![(idx[0], idx[idx.len() - 2], idx.last())]
    }
}

/// One vertex position, as the three raw coordinate tokens.
pub ghost struct VertV {
    pub x: Seq<char>,
    pub y: Seq<char>,
    pub z: Seq<char>,
}

/// One mesh line folded into the vertex list: a `v` line with at least
/// three coordinate tokens appends them verbatim.
pub open spec fn vertex_step(verts: Seq<VertV>, line: Seq<char>) -> Seq<VertV> {
    let toks = ws_split_from(line, 0);
    if toks.len() >= 4 && toks[0] == "v"@ {
        verts.push(VertV { x: toks[1], y: toks[2], z: toks[3] })
    } else {
        verts
    }
}

pub open spec fn obj_vertices(lines: Seq<Seq<char>>, i: int) -> Seq<VertV>
    decreases i,
{
    if i <= 0 {
        Seq::<VertV>::empty()
    } else {
        vertex_step(obj_vertices(lines, i - 1), lines[i - 1])
    }
}

/// One mesh line folded into the triangle list: an `f` line whose tokens
/// all parse contributes its fan.
pub open spec fn face_step(tris: Seq<(int, int, int)>, line: Seq<char>) -> Seq<(int, int, int)> {
    let toks = ws_split_from(line, 0);
    if toks.len() >= 1 && toks[0] == "f"@ {
        match face_indices(toks, 1) {
            Some(idx) => tris + fan_triangles(idx),
            None => tris,
        }
    } else {
        tris
    }
}

pub open spec fn obj_triangles(lines: Seq<Seq<char>>, i: int) -> Seq<(int, int, int)>
    decreases i,
{
    if i <= 0 {
        Seq::<(int, int, int)>::empty()
    } else {
        face_step(obj_triangles(lines, i - 1), lines[i - 1])
    }
}

/// The first position of a material name, or -1.
pub open spec fn mat_index(mats: Seq<Seq<char>>, name: Seq<char>) -> int
    decreases mats.len(),
{
    if mats.len() == 0 {
        -1
    } else if mats[0] == name {
        0
    } else {
        let r = mat_index(mats.drop_first(), name);
        if r == -1 { -1 } else { 1 + r }
    }
}

pub proof fn lemma_mat_index(mats: Seq<Seq<char>>, name: Seq<char>)
    ensures
        -1 <= mat_index(mats, name) < mats.len(),
        mat_index(mats, name) >= 0 ==> mats[mat_index(mats, name)] == name,
        mat_index(mats, name) >= 0 ==> forall|k: int| 0 <= k < mat_index(mats, name)
            ==> mats[k] != name,
        mat_index(mats, name) == -1 ==> forall|k: int| 0 <= k < mats.len()
            ==> mats[k] != name,
    decreases mats.len(),
{
    if mats.len() > 0 && mats[0] != name {
        lemma_mat_index(mats.drop_first(), name);
        if mat_index(mats, name) >= 0 {
            assert forall|k: int| 0 <= k < mat_index(mats, name) implies mats[k] != name by {
                if k > 0 {
                    assert(mats.drop_first()[k - 1] == mats[k]);
                }
            }
        } else {
            assert forall|k: int| 0 <= k < mats.len() implies mats[k] != name by {
                if k > 0 {
                    assert(mats.drop_first()[k - 1] == mats[k]);
                }
            }
        }
    }
}

/// The material partition of the faces: the colour index of each emitted
/// triangle, the palette names in order of first use, and the index the
/// next face would take.
pub ghost struct MatState {
    pub face_mats: Seq<int>,
    pub mats: Seq<Seq<char>>,
    pub cur: int,
}

/// One mesh line folded into the material state: `usemtl` selects or
/// registers a material, an accepted `f` line stamps its fan with the
/// current index, anything else changes nothing.
pub open spec fn mat_step(st: MatState, line: Seq<char>) -> MatState {
    let toks = ws_split_from(line, 0);
    if toks.len() >= 2 && toks[0] == "usemtl"@ {
        let idx = mat_index(st.mats, toks[1]);
        if idx >= 0 {
            MatState { cur: idx, ..st }
        } else {
            MatState { mats: st.mats.push(toks[1]), cur: st.mats.len() as int, ..st }
        }
    } else if toks.len() >= 1 && toks[0] == "f"@ {
        match face_indices(toks, 1) {
            Some(idx) => {
                let n = if idx.len() >= 3 { idx.len() - 2 } else { 0int };
                MatState { face_mats: st.face_mats + Seq::new(n as nat, |k: int| st.cur), ..st }
            },
            None => st,
        }
    } else {
        st
    }
}

pub open spec fn obj_materials(lines: Seq<Seq<char>>, i: int) -> MatState
    decreases i,
{
    if i <= 0 {
        MatState { face_mats: Seq::<int>::empty(), mats: Seq::<Seq<char>>::empty(), cur: 0 }
    } else {
        mat_step(obj_materials(lines, i - 1), lines[i - 1])
    }
}

/// One vertex as a VRML point row, the tokens verbatim.
pub open spec fn point_row(v: VertV) -> Seq<char> {
    "        "@ + v.x + " "@ + v.y + " "@ + v.z + ",\n"@
}

/// One triangle as a VRML index row.
pub open spec fn index_row(t: (i64, i64, i64)) -> Seq<char> {
    "        "@ + dec_i(t.0 as int) + ", "@ + dec_i(t.1 as int) + ", "@ + dec_i(t.2 as int)
        + ", -1,\n"@
}

pub open spec fn vert_view(v: (String, String, String)) -> VertV {
    VertV { x: v.0@, y: v.1@, z: v.2@ }
}

pub open spec fn tri_view(t: (i64, i64, i64)) -> (int, int, int) {
    (t.0 as int, t.1 as int, t.2 as int)
}

/// The ghost image of a vertex list.
pub open spec fn vert_views(vs: Seq<(String, String, String)>) -> Seq<VertV> {
    vs.map_values(|v: (String, String, String)| vert_view(v))
}

/// The ghost image of a triangle list.
pub open spec fn tri_views(ts: Seq<(i64, i64, i64)>) -> Seq<(int, int, int)> {
    ts.map_values(|t: (i64, i64, i64)| tri_view(t))
}

/// One per-face colour index row.
pub open spec fn color_index_row(m: usize) -> Seq<char> {
    "        "@ + crate::num::dec_u(m as nat) + ",\n"@
}

/// `n` identical palette rows: the mesh names materials but no colours,
/// so each entry is the same gray.
pub open spec fn gray_rows(n: int) -> Seq<char>
    decreases n,
{
    if n <= 0 {
        Seq::<char>::empty()
    } else {
        gray_rows(n - 1) + "        0.8 0.8 0.8,\n"@
    }
}

/// The whole VRML scene: the vertices, the fan triangles, the per-face
/// colour indices that keep the mesh's material partition, and a palette
/// of `max(1, mats_len)` entries.
pub open spec fn vrml_text(verts: Seq<(String, String, String)>, tris: Seq<(i64, i64, i64)>,
    face_mats: Seq<usize>, mats_len: int) -> Seq<char> {
    "#VRML V2.0 utf8\nShape {\n  appearance Appearance {\n    material Material {\n      diffuseColor 0.8 0.8 0.8\n    }\n  }\n  geometry IndexedFaceSet {\n    coord Coordinate {\n      point [\n"@
        + cat_map(verts, |v: (String, String, String)| point_row(vert_view(v)))
        + "      ]\n    }\n    coordIndex [\n"@
        + cat_map(tris, |t: (i64, i64, i64)| index_row(t))
        + "    ]\n    colorPerVertex FALSE\n    colorIndex [\n"@
        + cat_map(face_mats, |m: usize| color_index_row(m))
        + "    ]\n    color Color {\n      color [\n"@
        + gray_rows(if mats_len <= 1 { 1 } else { mats_len })
        + "      ]\n    }\n  }\n}\n"@
}

/// Transcodes a Wavefront mesh into a VRML scene.
pub struct ModelExporter;

impl ModelExporter {
    pub fn new() -> (r: ModelExporter)
    {
        ModelExporter
    }

    /// Transcode a mesh: the scene holds exactly the vertices and the fan
    /// triangles that the line fold yields, vertices verbatim, and the
    /// per-face colour indices and palette size of the material fold.
    /// Fails only when the mesh has no vertices at all.
    pub fn obj_to_wrl(&self, obj_data: &str) -> (r: Result<String, KicadError>)
        ensures
            ({
                let lines = split_spec(obj_data@, '\n');
                let verts = obj_vertices(lines, lines.len() as int);
                let tris = obj_triangles(lines, lines.len() as int);
                let ms = obj_materials(lines, lines.len() as int);
                match r {
                    Ok(out) => verts.len() > 0 && exists|vs: Seq<(String, String, String)>,
                        ts: Seq<(i64, i64, i64)>, fm: Seq<usize>|
                        vert_views(vs) == verts && tri_views(ts) == tris
                            && fm.map_values(|m: usize| m as int) == ms.face_mats
                            && out@ == #[trigger] vrml_text(vs, ts, fm, ms.mats.len() as int),
                    Err(_) => verts.len() == 0,
                }
            }),
    {
        let lines = split_fields(obj_data, '\n');
        let ghost lv = split_spec(obj_data@, '\n');
        let mut verts: Vec<(String, String, String)> = Vec::new();
        let mut tris: Vec<(i64, i64, i64)> = Vec::new();
        let mut face_mats: Vec<usize> = Vec::new();
        let mut mats: Vec<String> = Vec::new();
        let mut cur: usize = 0;
        let mut i: usize = 0;
        proof {
            assert(lines.deep_view() == lv);
            assert(verts@.map_values(|v: (String, String, String)| vert_view(v))
                =~= obj_vertices(lv, 0));
            assert(tris@.map_values(|t: (i64, i64, i64)| tri_view(t)) =~= obj_triangles(lv, 0));
            assert(face_mats@.map_values(|m: usize| m as int) =~= obj_materials(lv, 0).face_mats);
            assert(mats.deep_view() =~= obj_materials(lv, 0).mats);
        }
        while i < lines.len()
            invariant
                0 <= i <= lines@.len(),
                lv == lines.deep_view(),
                lv.len() == lines@.len(),
                verts@.map_values(|v: (String, String, String)| vert_view(v))
                    == obj_vertices(lv, i as int),
                tris@.map_values(|t: (i64, i64, i64)| tri_view(t)) == obj_triangles(lv, i as int),
                face_mats@.map_values(|m: usize| m as int)
                    == obj_materials(lv, i as int).face_mats,
                mats.deep_view() == obj_materials(lv, i as int).mats,
                cur as int == obj_materials(lv, i as int).cur,
                forall|k: int| 0 <= k < tris@.len()
                    ==> tri_fits(tri_view(#[trigger] tris@[k])),
            decreases lines@.len() - i,
        {
            proof {
                assert(lv[i as int] == lines@[i as int]@);
            }
            let toks = split_whitespace_tokens(lines[i].as_str());
            let ghost tv = ws_split_from(lv[i as int], 0);
            proof {
                reveal_strlit("v");
                reveal_strlit("f");
                reveal_strlit("usemtl");
                assert("v"@ != "f"@ && "v"@ != "usemtl"@ && "f"@ != "usemtl"@) by {
                    assert("v"@[0] == 'v');
                    assert("f"@[0] == 'f');
                    assert("usemtl"@.len() == 6);
                }
                assert(toks.deep_view() == tv);
                assert(tv.len() == toks@.len());
            }
            if toks.len() >= 4 && crate::importer::str_eq(toks[0].as_str(), "v") {
                proof {
                    assert(tv[0] == toks@[0]@);
                    assert(tv[1] == toks@[1]@);
                    assert(tv[2] == toks@[2]@);
                    assert(tv[3] == toks@[3]@);
                }
                let ghost old_verts = verts@;
                verts.push((toks[1].clone(), toks[2].clone(), toks[3].clone()));
                proof {
                    let f = |v: (String, String, String)| vert_view(v);
                    assert(verts@.map_values(f)
                        =~= old_verts.map_values(f).push(vert_view(verts@.last())));
                    assert(verts@.last().0@ == tv[1]);
                    assert(verts@.last().1@ == tv[2]);
                    assert(verts@.last().2@ == tv[3]);
                    assert(vert_view(verts@.last()) == VertV { x: tv[1], y: tv[2], z: tv[3] });
                    assert(tv.len() >= 4 && tv[0] == "v"@);
                    assert(obj_vertices(lv, i + 1)
                        == vertex_step(obj_vertices(lv, i as int), lv[i as int]));
                    assert(obj_vertices(lv, i + 1)
                        == obj_vertices(lv, i as int).push(VertV { x: tv[1], y: tv[2], z: tv[3] }));
                    assert(old_verts.map_values(f) == obj_vertices(lv, i as int));
                    assert(verts@.map_values(f) =~= obj_vertices(lv, i + 1));
                    assert(obj_triangles(lv, i + 1) =~= obj_triangles(lv, i as int));
                    assert(obj_materials(lv, i + 1) =~= obj_materials(lv, i as int));
                }
            } else if toks.len() >= 2 && crate::importer::str_eq(toks[0].as_str(), "usemtl") {
                proof {
                    assert(tv[0] == toks@[0]@);
                    assert(tv[1] == toks@[1]@);
                }
                match find_material(&mats, toks[1].as_str()) {
                    Some(found) => {
                        cur = found;
                    },
                    None => {
                        let ghost old_mats = mats.deep_view();
                        cur = mats.len();
                        mats.push(toks[1].clone());
                        proof {
                            assert(mats.deep_view() =~= old_mats.push(tv[1]));
                        }
                    },
                }
                proof {
                    assert(obj_materials(lv, i + 1)
                        == mat_step(obj_materials(lv, i as int), lv[i as int]));
                    assert(face_mats@.map_values(|m: usize| m as int)
                        =~= obj_materials(lv, i + 1).face_mats);
                    assert(mats.deep_view() =~= obj_materials(lv, i + 1).mats);
                    assert(obj_vertices(lv, i + 1) =~= obj_vertices(lv, i as int));
                    assert(obj_triangles(lv, i + 1) =~= obj_triangles(lv, i as int));
                }
            } else if toks.len() >= 1 && crate::importer::str_eq(toks[0].as_str(), "f") {
                proof {
                    assert(tv[0] == toks@[0]@);
                }
                match parse_face_indices(&toks) {
                    Some(idx) => {
                        append_fan(&mut tris, &idx);
                        let fan: usize = if idx.len() >= 3 { idx.len() - 2 } else { 0 };
                        append_repeated(&mut face_mats, cur, fan);
                        proof {
                            let ft = |t: (i64, i64, i64)| tri_view(t);
                            let fmv = |m: usize| m as int;
                            assert(tris@.map_values(ft) =~= obj_triangles(lv, i + 1));
                            assert(obj_vertices(lv, i + 1) =~= obj_vertices(lv, i as int));
                            assert(face_mats@.map_values(fmv)
                                =~= obj_materials(lv, i + 1).face_mats);
                            assert(mats.deep_view() =~= obj_materials(lv, i + 1).mats);
                        }
                    },
                    None => {
                        proof {
                            assert(obj_triangles(lv, i + 1) =~= obj_triangles(lv, i as int));
                            assert(obj_vertices(lv, i + 1) =~= obj_vertices(lv, i as int));
                            assert(obj_materials(lv, i + 1) =~= obj_materials(lv, i as int));
                        }
                    },
                }
            } else {
                proof {
                    assert(obj_vertices(lv, i + 1) =~= obj_vertices(lv, i as int));
                    assert(obj_triangles(lv, i + 1) =~= obj_triangles(lv, i as int));
                    assert(obj_materials(lv, i + 1) =~= obj_materials(lv, i as int));
                }
            }
            i = i + 1;
        }
        if verts.len() == 0 {
            let mut m = String::new();
            m.append("mesh has no vertices");
            return Err(KicadError::ModelExport(m));
        }
        let out = render_vrml(&verts, &tris, &face_mats, mats.len());
        proof {
            let f = |v: (String, String, String)| vert_view(v);
            let ft = |t: (i64, i64, i64)| tri_view(t);
            let fmv = |m: usize| m as int;
            assert(verts@.map_values(f) == obj_vertices(lv, lv.len() as int));
            assert(tris@.map_values(ft) == obj_triangles(lv, lv.len() as int));
            assert(face_mats@.map_values(fmv) == obj_materials(lv, lv.len() as int).face_mats);
            assert(mats@.len() as int == obj_materials(lv, lv.len() as int).mats.len());
            assert(out@ == vrml_text(verts@, tris@, face_mats@, mats@.len() as int));
        }
        Ok(out)
    }
}

/// The position of a material name in the palette, or nothing; exactly
/// `mat_index`.
fn find_material(mats: &Vec<String>, name: &str) -> (r: Option<usize>)
    ensures
        match r {
            Some(p) => mat_index(mats.deep_view(), name@) == p as int && p < mats@.len(),
            None => mat_index(mats.deep_view(), name@) == -1,
        },
{
    let ghost mv = mats.deep_view();
    proof {
        lemma_mat_index(mv, name@);
        assert(mv.len() == mats@.len());
    }
    let mut i: usize = 0;
    while i < mats.len()
        invariant
            0 <= i <= mats@.len(),
            mv == mats.deep_view(),
            mv.len() == mats@.len(),
            forall|k: int| 0 <= k < i ==> mv[k] != name@,
            -1 <= mat_index(mv, name@) < mv.len(),
            mat_index(mv, name@) >= 0 ==> mv[mat_index(mv, name@)] == name@,
            mat_index(mv, name@) >= 0 ==> forall|k: int| 0 <= k < mat_index(mv, name@)
                ==> mv[k] != name@,
            mat_index(mv, name@) == -1 ==> forall|k: int| 0 <= k < mv.len()
                ==> mv[k] != name@,
        decreases mats@.len() - i,
    {
        proof {
            assert(mv[i as int] == mats@[i as int]@);
        }
        if crate::importer::str_eq(mats[i].as_str(), name) {
            proof {
                assert(mat_index(mv, name@) == i as int) by {
                    if mat_index(mv, name@) > i as int {
                        assert(mv[i as int] != name@);
                    }
                    if mat_index(mv, name@) < i as int && mat_index(mv, name@) >= 0 {
                        assert(mv[mat_index(mv, name@)] != name@);
                    }
                    if mat_index(mv, name@) == -1 {
                        assert(mv[i as int] != name@);
                    }
                }
            }
            return Some(i);
        }
        i = i + 1;
    }
    proof {
        if mat_index(mv, name@) >= 0 {
            assert(mv[mat_index(mv, name@)] != name@);
        }
    }
    None
}

/// Extend the colour indices by `n` copies of the current material.
fn append_repeated(face_mats: &mut Vec<usize>, cur: usize, n: usize)
    ensures
        final(face_mats)@.map_values(|m: usize| m as int)
            == old(face_mats)@.map_values(|m: usize| m as int)
                + Seq::new(n as nat, |k: int| cur as int),
{
    let ghost base = face_mats@.map_values(|m: usize| m as int);
    let mut k: usize = 0;
    proof {
        assert(base + Seq::new(0, |j: int| cur as int) =~= base);
    }
    while k < n
        invariant
            0 <= k <= n,
            face_mats@.map_values(|m: usize| m as int)
                == base + Seq::new(k as nat, |j: int| cur as int),
        decreases n - k,
    {
        let ghost old_fm = face_mats@;
        face_mats.push(cur);
        proof {
            let fmv = |m: usize| m as int;
            assert(face_mats@.map_values(fmv) =~= old_fm.map_values(fmv).push(cur as int));
            assert(face_mats@.map_values(fmv) =~= base + Seq::new((k + 1) as nat,
                |j: int| cur as int));
        }
        k = k + 1;
    }
}

/// A triangle whose indices the renderer can print.
pub open spec fn tri_fits(t: (int, int, int)) -> bool {
    -100000000 < t.0 < 100000000 && -100000000 < t.1 < 100000000 && -100000000 < t.2 < 100000000
}

/// The zero-based indices of the face tokens after the designator, or
/// nothing when any of them is unusable.
fn parse_face_indices(toks: &Vec<String>) -> (r: Option<Vec<i64>>)
    requires
        toks@.len() >= 1,
    ensures
        match r {
            Some(idx) => face_indices(toks.deep_view(), 1)
                == Some(idx@.map_values(|v: i64| v as int))
                && forall|k: int| 0 <= k < idx@.len()
                    ==> 0 <= #[trigger] idx@[k] < 100000000,
            None => face_indices(toks.deep_view(), 1) is None,
        },
{
    let ghost tv = toks.deep_view();
    let mut out: Vec<i64> = Vec::new();
    let mut i: usize = 1;
    proof {
        assert(tv.len() == toks@.len());
        if face_indices(tv, 1) is Some {
            assert(out@.map_values(|v: i64| v as int) + face_indices(tv, 1)->Some_0
                =~= face_indices(tv, 1)->Some_0);
        }
    }
    while i < toks.len()
        invariant
            1 <= i,
            tv == toks.deep_view(),
            tv.len() == toks@.len(),
            face_indices(tv, 1) == (match face_indices(tv, i as int) {
                Some(rest) => Some(out@.map_values(|v: i64| v as int) + rest),
                None => None::<Seq<int>>,
            }),
            forall|k: int| 0 <= k < out@.len() ==> 0 <= #[trigger] out@[k] < 100000000,
        decreases toks@.len() - i,
    {
        proof {
            assert(tv[i as int] == toks@[i as int]@);
        }
        let idx = match parse_face_token(toks[i].as_str()) {
            Some(v) => v,
            None => { return None; },
        };
        let ghost old_out = out@;
        out.push(idx);
        proof {
            let f = |v: i64| v as int;
            assert(out@.map_values(f) =~= old_out.map_values(f).push(idx as int));
            let rest_opt = face_indices(tv, i + 1);
            if rest_opt is Some {
                let rest = rest_opt->Some_0;
                assert(old_out.map_values(f) + (seq![idx as int] + rest)
                    =~= out@.map_values(f) + rest);
            }
        }
        i = i + 1;
    }
    proof {
        assert(face_indices(tv, i as int) == Some(Seq::<int>::empty()));
        assert(out@.map_values(|v: i64| v as int) + Seq::<int>::empty()
            =~= out@.map_values(|v: i64| v as int));
    }
    Some(out)
}

/// One face token: the digits before any `/`, one-based.
fn parse_face_token(t: &str) -> (r: Option<i64>)
    ensures
        match r {
            Some(v) => face_token_index(t@) == Some(v as int) && 0 <= v < 100000000,
            None => face_token_index(t@) is None,
        },
{
    let n = t.unicode_len();
    let mut p: usize = 0;
    while p < n && t.get_char(p) != '/'
        invariant
            0 <= p <= n,
            n == t@.len(),
            forall|k: int| 0 <= k < p ==> t@[k] != '/',
        decreases n - p,
    {
        p = p + 1;
    }
    proof {
        lemma_sep_pos(t@, '/');
        assert(sep_pos(t@, '/') == p) by {
            if sep_pos(t@, '/') < p {
                assert(t@[sep_pos(t@, '/')] == '/');
            }
            if sep_pos(t@, '/') > p {
                assert(p < n);
                assert(t@[p as int] != '/');
            }
        }
    }
    let head = t.substring_char(0, p);
    proof {
        assert(head@ =~= t@.take(p as int));
    }
    match parse_int(head) {
        Some(v) => {
            if v >= 1 {
                Some(v - 1)
            } else {
                None
            }
        },
        None => None,
    }
}

/// Extend the triangle list by the fan of one face.
fn append_fan(tris: &mut Vec<(i64, i64, i64)>, idx: &Vec<i64>)
    requires
        forall|k: int| 0 <= k < idx@.len() ==> 0 <= #[trigger] idx@[k] < 100000000,
        forall|k: int| 0 <= k < old(tris)@.len()
            ==> tri_fits(tri_view(#[trigger] old(tris)@[k])),
    ensures
        final(tris)@.map_values(|t: (i64, i64, i64)| tri_view(t))
            == old(tris)@.map_values(|t: (i64, i64, i64)| tri_view(t))
                + fan_triangles(idx@.map_values(|v: i64| v as int)),
        forall|k: int| 0 <= k < final(tris)@.len()
            ==> tri_fits(tri_view(#[trigger] final(tris)@[k])),
{
    let ghost iv = idx@.map_values(|v: i64| v as int);
    let ghost base = tris@.map_values(|t: (i64, i64, i64)| tri_view(t));
    if idx.len() < 3 {
        proof {
            assert(fan_triangles(iv).len() == 0);
            assert(base + fan_triangles(iv) =~= base);
        }
        return;
    }
    let mut k: usize = 2;
    proof {
        assert(iv.take(2).len() < 3);
        assert(fan_triangles(iv.take(2)) =~= Seq::<(int, int, int)>::empty());
        assert(base + fan_triangles(iv.take(2)) =~= base);
    }
    while k < idx.len()
        invariant
            2 <= k <= idx@.len(),
            idx@.len() >= 3,
            iv == idx@.map_values(|v: i64| v as int),
            forall|j: int| 0 <= j < idx@.len() ==> 0 <= #[trigger] idx@[j] < 100000000,
            forall|j: int| 0 <= j < tris@.len()
                ==> tri_fits(tri_view(#[trigger] tris@[j])),
            tris@.map_values(|t: (i64, i64, i64)| tri_view(t))
                == base + fan_triangles(iv.take(k as int)),
        decreases idx@.len() - k,
    {
        let ghost old_tris = tris@;
        tris.push((idx[0], idx[k - 1], idx[k]));
        proof {
            let ft = |t: (i64, i64, i64)| tri_view(t);
            assert(tris@.map_values(ft) =~= old_tris.map_values(ft).push(tri_view(tris@.last())));
            assert(iv.take(k + 1).drop_last() =~= iv.take(k as int));
            assert(iv.take(k + 1).last() == iv[k as int]);
            assert(iv.take(k + 1)[0] == iv[0]);
            assert(iv.take(k + 1)[k - 1] == iv[k - 1]);
            assert(fan_triangles(iv.take(k + 1))
                =~= fan_triangles(iv.take(k as int)) + seq![(iv[0], iv[k - 1], iv[k as int])]);
            assert(tris@.map_values(ft) =~= base + fan_triangles(iv.take(k + 1)));
        }
        k = k + 1;
    }
    proof {
        assert(iv.take(iv.len() as int) =~= iv);
    }
}

/// Render the scene; exactly `vrml_text`.
fn render_vrml(verts: &Vec<(String, String, String)>, tris: &Vec<(i64, i64, i64)>,
    face_mats: &Vec<usize>, mats_len: usize) -> (r: String)
    requires
        forall|k: int| 0 <= k < tris@.len()
            ==> tri_fits(tri_view(#[trigger] tris@[k])),
    ensures
        r@ == vrml_text(verts@, tris@, face_mats@, mats_len as int),
{
    let mut out = String::new();
    out.append("#VRML V2.0 utf8\nShape {\n  appearance Appearance {\n    material Material {\n      diffuseColor 0.8 0.8 0.8\n    }\n  }\n  geometry IndexedFaceSet {\n    coord Coordinate {\n      point [\n");
    let ghost base1 = out@;
    let mut i: usize = 0;
    while i < verts.len()
        invariant
            0 <= i <= verts@.len(),
            out@ == base1 + cat_map(verts@.take(i as int),
                |v: (String, String, String)| point_row(vert_view(v))),
        decreases verts@.len() - i,
    {
        out.append("        ");
        out.append(verts[i].0.as_str());
        out.append(" ");
        out.append(verts[i].1.as_str());
        out.append(" ");
        out.append(verts[i].2.as_str());
        out.append(",\n");
        proof {
            lemma_cat_map_step(verts@, |v: (String, String, String)| point_row(vert_view(v)),
                i as int);
            assert(out@ =~= base1 + cat_map(verts@.take(i as int),
                |v: (String, String, String)| point_row(vert_view(v)))
                + point_row(vert_view(verts@[i as int])));
        }
        i = i + 1;
    }
    proof {
        lemma_cat_map_full(verts@, |v: (String, String, String)| point_row(vert_view(v)));
    }
    out.append("      ]\n    }\n    coordIndex [\n");
    let ghost base2 = out@;
    let mut i: usize = 0;
    while i < tris.len()
        invariant
            0 <= i <= tris@.len(),
            forall|k: int| 0 <= k < tris@.len()
                ==> tri_fits(tri_view(#[trigger] tris@[k])),
            out@ == base2 + cat_map(tris@.take(i as int), |t: (i64, i64, i64)| index_row(t)),
        decreases tris@.len() - i,
    {
        out.append("        ");
        let s1 = fmt_i64(tris[i].0);
        out.append(s1.as_str());
        out.append(", ");
        let s2 = fmt_i64(tris[i].1);
        out.append(s2.as_str());
        out.append(", ");
        let s3 = fmt_i64(tris[i].2);
        out.append(s3.as_str());
        out.append(", -1,\n");
        proof {
            lemma_cat_map_step(tris@, |t: (i64, i64, i64)| index_row(t), i as int);
            assert(out@ =~= base2 + cat_map(tris@.take(i as int),
                |t: (i64, i64, i64)| index_row(t)) + index_row(tris@[i as int]));
        }
        i = i + 1;
    }
    proof {
        lemma_cat_map_full(tris@, |t: (i64, i64, i64)| index_row(t));
    }
    out.append("    ]\n    colorPerVertex FALSE\n    colorIndex [\n");
    let ghost base3 = out@;
    let mut i: usize = 0;
    while i < face_mats.len()
        invariant
            0 <= i <= face_mats@.len(),
            out@ == base3 + cat_map(face_mats@.take(i as int), |m: usize| color_index_row(m)),
        decreases face_mats@.len() - i,
    {
        out.append("        ");
        let m = face_mats[i];
        let ms = crate::num::fmt_u64(m as u64);
        out.append(ms.as_str());
        out.append(",\n");
        proof {
            lemma_cat_map_step(face_mats@, |mm: usize| color_index_row(mm), i as int);
            assert(out@ =~= base3 + cat_map(face_mats@.take(i as int),
                |mm: usize| color_index_row(mm)) + color_index_row(face_mats@[i as int]));
        }
        i = i + 1;
    }
    proof {
        lemma_cat_map_full(face_mats@, |m: usize| color_index_row(m));
    }
    out.append("    ]\n    color Color {\n      color [\n");
    let rows: usize = if mats_len <= 1 { 1 } else { mats_len };
    let ghost base4 = out@;
    let mut i: usize = 0;
    proof {
        assert(base4 + gray_rows(0) =~= base4);
    }
    while i < rows
        invariant
            0 <= i <= rows,
            out@ == base4 + gray_rows(i as int),
        decreases rows - i,
    {
        out.append("        0.8 0.8 0.8,\n");
        proof {
            assert(out@ =~= base4 + gray_rows(i + 1));
        }
        i = i + 1;
    }
    out.append("      ]\n    }\n  }\n}\n");
    proof {
        assert(rows as int == (if mats_len as int <= 1 { 1int } else { mats_len as int }));
        assert(out@ =~= vrml_text(verts@, tris@, face_mats@, mats_len as int));
    }
    out
}

} // verus!
