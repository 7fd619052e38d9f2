//! Altium PCB footprint model and its `.PcbLib` record emitter.
//!
//! Same record discipline as the schematic library; coordinates are mils
//! with up to four decimals, the `MIL` suffix spelled out.  The 3D-model
//! record embeds a freshly minted UUID, so the emitted text is pinned down
//! up to that one 36-character identifier.

use vstd::prelude::*;
use vstd::string::*;
use crate::num::{fix_trim, fmt_fix_trim, fmt_i64, fits_coord};
use crate::altium_symbol::{escape_spec, escape_string};
use crate::lexer::{cat_map, lemma_cat_map_step, lemma_cat_map_full};

verus! {

/// The pad outline kinds Altium numbers 0 to 3.
#[derive(Debug, Clone, Copy, PartialEq, Eq, Structural)]
pub enum PadShape {
    Round,
    Rectangle,
    Octagonal,
    RoundRect,
}

pub open spec fn ad_shape_code(s: PadShape) -> int {
    match s {
        PadShape::Round => 0,
        PadShape::Rectangle => 1,
        PadShape::Octagonal => 2,
        PadShape::RoundRect => 3,
    }
}

impl PadShape {
    /// The numeric `SHAPE` code of the outline.
    pub fn to_altium_code(&self) -> (r: i64)
        ensures
            r as int == ad_shape_code(*self),
    {
        match self {
            PadShape::Round => 0,
            PadShape::Rectangle => 1,
            PadShape::Octagonal => 2,
            PadShape::RoundRect => 3,
        }
    }
}

/// The copper side of a pad.
#[derive(Debug, Clone, Copy, PartialEq, Eq, Structural)]
pub enum PadLayer {
    Top,
    Bottom,
    MultiLayer,
}

pub open spec fn ad_layer_name(l: PadLayer) -> Seq<char> {
    match l {
        PadLayer::Top => "TOP"@,
        PadLayer::Bottom => "BOTTOM"@,
        PadLayer::MultiLayer => "MULTILAYER"@,
    }
}

impl PadLayer {
    /// The `LAYER` token of the side.
    pub fn to_altium_name(&self) -> (r: &'static str)
        ensures
            r@ == ad_layer_name(*self),
    {
        match self {
            PadLayer::Top => "TOP",
            PadLayer::Bottom => "BOTTOM",
            PadLayer::MultiLayer => "MULTILAYER",
        }
    }
}

pub struct AdFootprint {
    pub name: String,
    pub description: String,
    pub pads: Vec<AdPad>,
    pub lines: Vec<AdLine>,
    pub arcs: Vec<AdArc>,
    pub texts: Vec<AdText>,
    pub model_3d: Option<Ad3DModel>,
}

pub struct AdPad {
    pub x: i64,
    pub y: i64,
    pub width: i64,
    pub height: i64,
    pub hole_size: i64,
    pub shape: PadShape,
    pub name: String,
    pub layer: PadLayer,
    pub rotation: i64,
}

pub struct AdLine {
    pub start_x: i64,
    pub start_y: i64,
    pub end_x: i64,
    pub end_y: i64,
    pub width: i64,
    pub layer: String,
}

pub struct AdArc {
    pub center_x: i64,
    pub center_y: i64,
    pub radius: i64,
    pub start_angle: i64,
    pub end_angle: i64,
    pub width: i64,
    pub layer: String,
}

pub struct AdText {
    pub x: i64,
    pub y: i64,
    pub text: String,
    pub height: i64,
    pub width: i64,
    pub rotation: i64,
    pub layer: String,
}

pub struct Ad3DModel {
    pub filename: String,
    pub rotation_x: i64,
    pub rotation_y: i64,
    pub rotation_z: i64,
    pub offset_z: i64,
}

/// The file header.
pub open spec fn pcb_header() -> Seq<char> {
    "|HEADER=Protel for Windows - PCB Library Binary File Version 5.0\n|WEIGHT=748\n\n"@
}

/// The footprint definition record.
pub open spec fn pcb_def(f: AdFootprint) -> Seq<char> {
    "|RECORD=2\n|NAME="@ + escape_spec(f.name@) + "\n|DESCRIPTION="@
        + escape_spec(f.description@) + "\n\n"@
}

/// One pad record; `PLATED` is `T` exactly when the hole size is positive,
/// the rotation appears only when it is not zero.
pub open spec fn pcb_pad(p: AdPad) -> Seq<char> {
    "|RECORD=3\n|OWNERINDEX=0\n|LAYER="@ + ad_layer_name(p.layer) + "\n|X="@
        + fix_trim(p.x as int) + "MIL\n|Y="@ + fix_trim(p.y as int) + "MIL\n|XSIZE="@
        + fix_trim(p.width as int) + "MIL\n|YSIZE="@ + fix_trim(p.height as int)
        + "MIL\n|HOLESIZE="@ + fix_trim(p.hole_size as int) + "MIL\n|SHAPE="@
        + crate::num::dec_i(ad_shape_code(p.shape)) + "\n|PADMODE=0\n|PLATED="@
        + (if p.hole_size > 0 { "T"@ } else { "F"@ }) + "\n|NAME="@ + escape_spec(p.name@)
        + "\n"@
        + (if p.rotation != 0 { "|ROTATION="@ + fix_trim(p.rotation as int) + "\n"@ }
            else { Seq::<char>::empty() })
        + "\n"@
}

/// One line record.
pub open spec fn pcb_line(l: AdLine) -> Seq<char> {
    "|RECORD=6\n|LAYER="@ + l.layer@ + "\n|START.X="@ + fix_trim(l.start_x as int)
        + "MIL\n|START.Y="@ + fix_trim(l.start_y as int) + "MIL\n|END.X="@
        + fix_trim(l.end_x as int) + "MIL\n|END.Y="@ + fix_trim(l.end_y as int)
        + "MIL\n|WIDTH="@ + fix_trim(l.width as int) + "MIL\n\n"@
}

/// One arc record.
pub open spec fn pcb_arc(a: AdArc) -> Seq<char> {
    "|RECORD=7\n|LAYER="@ + a.layer@ + "\n|LOCATION.X="@ + fix_trim(a.center_x as int)
        + "MIL\n|LOCATION.Y="@ + fix_trim(a.center_y as int) + "MIL\n|RADIUS="@
        + fix_trim(a.radius as int) + "MIL\n|STARTANGLE="@ + fix_trim(a.start_angle as int)
        + "\n|ENDANGLE="@ + fix_trim(a.end_angle as int) + "\n|WIDTH="@
        + fix_trim(a.width as int) + "MIL\n\n"@
}

/// One text record.
pub open spec fn pcb_text(t: AdText) -> Seq<char> {
    "|RECORD=8\n|LAYER="@ + t.layer@ + "\n|X="@ + fix_trim(t.x as int) + "MIL\n|Y="@
        + fix_trim(t.y as int) + "MIL\n|TEXT="@ + escape_spec(t.text@) + "\n|HEIGHT="@
        + fix_trim(t.height as int) + "MIL\n|WIDTH="@ + fix_trim(t.width as int)
        + "MIL\n|ROTATION="@ + fix_trim(t.rotation as int) + "\n|FONTID=1\n\n"@
}

/// The 3D-model record, around the freshly minted identifier `uuid`.
pub open spec fn pcb_model(m: Ad3DModel, uuid: Seq<char>) -> Seq<char> {
    "|RECORD=16\n|OWNERINDEX=0\n|MODELNAME="@ + escape_spec(m.filename@) + "\n|MODELID={"@
        + uuid + "}\n|MODELDESCRIPTION=\n|ROTATION.X="@ + fix_trim(m.rotation_x as int)
        + "\n|ROTATION.Y="@ + fix_trim(m.rotation_y as int) + "\n|ROTATION.Z="@
        + fix_trim(m.rotation_z as int) + "\n|Z="@ + fix_trim(m.offset_z as int)
        + "MIL\n|CHECKSUM=\n|EMBEDSTEP=F\n\n"@
}

/// The whole `.PcbLib` text, given the model identifier that was minted.
pub open spec fn pcblib_text(f: AdFootprint, uuid: Seq<char>) -> Seq<char> {
    pcb_header() + pcb_def(f)
        + cat_map(f.pads@, |p: AdPad| pcb_pad(p))
        + cat_map(f.lines@, |l: AdLine| pcb_line(l))
        + cat_map(f.arcs@, |a: AdArc| pcb_arc(a))
        + cat_map(f.texts@, |t: AdText| pcb_text(t))
        + (match f.model_3d {
            Some(m) => pcb_model(m, uuid),
            None => Seq::<char>::empty(),
        })
}

pub open spec fn ad_pad_fits(p: AdPad) -> bool {
    &&& fits_coord(p.x as int)
    &&& fits_coord(p.y as int)
    &&& fits_coord(p.width as int)
    &&& fits_coord(p.height as int)
    &&& fits_coord(p.hole_size as int)
    &&& fits_coord(p.rotation as int)
}

pub open spec fn ad_fp_line_fits(l: AdLine) -> bool {
    &&& fits_coord(l.start_x as int)
    &&& fits_coord(l.start_y as int)
    &&& fits_coord(l.end_x as int)
    &&& fits_coord(l.end_y as int)
    &&& fits_coord(l.width as int)
}

pub open spec fn ad_arc_fits(a: AdArc) -> bool {
    &&& fits_coord(a.center_x as int)
    &&& fits_coord(a.center_y as int)
    &&& fits_coord(a.radius as int)
    &&& fits_coord(a.start_angle as int)
    &&& fits_coord(a.end_angle as int)
    &&& fits_coord(a.width as int)
}

pub open spec fn ad_fp_text_fits(t: AdText) -> bool {
    &&& fits_coord(t.x as int)
    &&& fits_coord(t.y as int)
    &&& fits_coord(t.height as int)
    &&& fits_coord(t.width as int)
    &&& fits_coord(t.rotation as int)
}

pub open spec fn ad_model_fits(m: Ad3DModel) -> bool {
    &&& fits_coord(m.rotation_x as int)
    &&& fits_coord(m.rotation_y as int)
    &&& fits_coord(m.rotation_z as int)
    &&& fits_coord(m.offset_z as int)
}

pub open spec fn ad_footprint_fits(f: AdFootprint) -> bool {
    &&& forall|i: int| 0 <= i < f.pads@.len() ==> ad_pad_fits(#[trigger] f.pads@[i])
    &&& forall|i: int| 0 <= i < f.lines@.len() ==> ad_fp_line_fits(#[trigger] f.lines@[i])
    &&& forall|i: int| 0 <= i < f.arcs@.len() ==> ad_arc_fits(#[trigger] f.arcs@[i])
    &&& forall|i: int| 0 <= i < f.texts@.len() ==> ad_fp_text_fits(#[trigger] f.texts@[i])
    &&& match f.model_3d {
        Some(m) => ad_model_fits(m),
        None => true,
    }
}

/// Relies on `uuid::Uuid::new_v4` and its hyphenated `Display` form: a
/// fresh random version-4 identifier, printed as the documented 36
/// character `8-4-4-4-12` shape.  Nothing is assumed of which identifier
/// comes back, only of its printed length.  Minting draws on the
/// operating system's randomness source and aborts if that source fails.
#[verifier::external_body]
fn mint_model_id() -> (r: String)
    ensures
        r@.len() == 36,
{
    let id = uuid::Uuid::new_v4();
    format!("{}", id)
}

/// The `.PcbLib` emitter.
pub struct FootprintExporter;

impl FootprintExporter {
    pub fn new() -> (r: FootprintExporter)
    {
        FootprintExporter
    }

    /// Serialize the footprint library: exactly `pcblib_text` around a
    /// freshly minted 36-character model identifier.
    pub fn export(&self, footprint: &AdFootprint) -> (r: String)
        requires
            ad_footprint_fits(*footprint),
        ensures
            exists|u: Seq<char>| u.len() == 36 && r@ == pcblib_text(*footprint, u),
    {
        let mut out = String::new();
        out.append("|HEADER=Protel for Windows - PCB Library Binary File Version 5.0\n|WEIGHT=748\n\n");
        out.append("|RECORD=2\n|NAME=");
        let e1 = escape_string(footprint.name.as_str());
        out.append(e1.as_str());
        out.append("\n|DESCRIPTION=");
        let e2 = escape_string(footprint.description.as_str());
        out.append(e2.as_str());
        out.append("\n\n");
        proof {
            assert(out@ =~= pcb_header() + pcb_def(*footprint));
        }
        let ghost base1 = out@;
        let mut i: usize = 0;
        while i < footprint.pads.len()
            invariant
                0 <= i <= footprint.pads@.len(),
                ad_footprint_fits(*footprint),
                out@ == base1 + cat_map(footprint.pads@.take(i as int), |p: AdPad| pcb_pad(p)),
            decreases footprint.pads@.len() - i,
        {
            write_pcb_pad(&mut out, &footprint.pads[i]);
            proof {
                lemma_cat_map_step(footprint.pads@, |p: AdPad| pcb_pad(p), i as int);
            }
            i = i + 1;
        }
        proof {
            lemma_cat_map_full(footprint.pads@, |p: AdPad| pcb_pad(p));
        }
        let ghost base2 = out@;
        let mut i: usize = 0;
        while i < footprint.lines.len()
            invariant
                0 <= i <= footprint.lines@.len(),
                ad_footprint_fits(*footprint),
                out@ == base2 + cat_map(footprint.lines@.take(i as int), |l: AdLine| pcb_line(l)),
            decreases footprint.lines@.len() - i,
        {
            write_pcb_line(&mut out, &footprint.lines[i]);
            proof {
                lemma_cat_map_step(footprint.lines@, |l: AdLine| pcb_line(l), i as int);
            }
            i = i + 1;
        }
        proof {
            lemma_cat_map_full(footprint.lines@, |l: AdLine| pcb_line(l));
        }
        let ghost base3 = out@;
        let mut i: usize = 0;
        while i < footprint.arcs.len()
            invariant
                0 <= i <= footprint.arcs@.len(),
                ad_footprint_fits(*footprint),
                out@ == base3 + cat_map(footprint.arcs@.take(i as int), |a: AdArc| pcb_arc(a)),
            decreases footprint.arcs@.len() - i,
        {
            write_pcb_arc(&mut out, &footprint.arcs[i]);
            proof {
                lemma_cat_map_step(footprint.arcs@, |a: AdArc| pcb_arc(a), i as int);
            }
            i = i + 1;
        }
        proof {
            lemma_cat_map_full(footprint.arcs@, |a: AdArc| pcb_arc(a));
        }
        let ghost base4 = out@;
        let mut i: usize = 0;
        while i < footprint.texts.len()
            invariant
                0 <= i <= footprint.texts@.len(),
                ad_footprint_fits(*footprint),
                out@ == base4 + cat_map(footprint.texts@.take(i as int), |t: AdText| pcb_text(t)),
            decreases footprint.texts@.len() - i,
        {
            write_pcb_text(&mut out, &footprint.texts[i]);
            proof {
                lemma_cat_map_step(footprint.texts@, |t: AdText| pcb_text(t), i as int);
            }
            i = i + 1;
        }
        proof {
            lemma_cat_map_full(footprint.texts@, |t: AdText| pcb_text(t));
        }
        let ghost before_model = out@;
        let mut minted: Ghost<Seq<char>> = Ghost(Seq::<char>::empty());
        match &footprint.model_3d {
            Some(m) => {
                let id = mint_model_id();
                proof {
                    minted@ = id@;
                }
                write_pcb_model(&mut out, m, id.as_str());
            },
            None => {},
        }
        proof {
            if footprint.model_3d is Some {
                assert(minted@.len() == 36);
                assert(out@ =~= pcblib_text(*footprint, minted@));
            } else {
                let u36 = Seq::<char>::new(36, |k: int| 'a');
                assert(u36.len() == 36);
                assert(out@ =~= pcblib_text(*footprint, u36));
            }
        }
        out
    }
}

#[verifier::rlimit(100)]
fn write_pcb_pad(out: &mut String, p: &AdPad)
    requires
        ad_pad_fits(*p),
    ensures
        final(out)@ == old(out)@ + pcb_pad(*p),
{
    out.append("|RECORD=3\n|OWNERINDEX=0\n|LAYER=");
    out.append(p.layer.to_altium_name());
    out.append("\n|X=");
    let s1 = fmt_fix_trim(p.x);
    out.append(s1.as_str());
    out.append("MIL\n|Y=");
    let s2 = fmt_fix_trim(p.y);
    out.append(s2.as_str());
    out.append("MIL\n|XSIZE=");
    let s3 = fmt_fix_trim(p.width);
    out.append(s3.as_str());
    out.append("MIL\n|YSIZE=");
    let s4 = fmt_fix_trim(p.height);
    out.append(s4.as_str());
    out.append("MIL\n|HOLESIZE=");
    let s5 = fmt_fix_trim(p.hole_size);
    out.append(s5.as_str());
    out.append("MIL\n|SHAPE=");
    let s6 = fmt_i64(p.shape.to_altium_code());
    out.append(s6.as_str());
    out.append("\n|PADMODE=0\n|PLATED=");
    if p.hole_size > 0 {
        out.append("T");
    } else {
        out.append("F");
    }
    out.append("\n|NAME=");
    let e = escape_string(p.name.as_str());
    out.append(e.as_str());
    out.append("\n");
    if p.rotation != 0 {
        out.append("|ROTATION=");
        let s7 = fmt_fix_trim(p.rotation);
        out.append(s7.as_str());
        out.append("\n");
    }
    out.append("\n");
    proof {
        assert(out@ =~= old(out)@ + pcb_pad(*p));
    }
}

#[verifier::rlimit(100)]
fn write_pcb_line(out: &mut String, l: &AdLine)
    requires
        ad_fp_line_fits(*l),
    ensures
        final(out)@ == old(out)@ + pcb_line(*l),
{
    out.append("|RECORD=6\n|LAYER=");
    out.append(l.layer.as_str());
    out.append("\n|START.X=");
    let s1 = fmt_fix_trim(l.start_x);
    out.append(s1.as_str());
    out.append("MIL\n|START.Y=");
    let s2 = fmt_fix_trim(l.start_y);
    out.append(s2.as_str());
    out.append("MIL\n|END.X=");
    let s3 = fmt_fix_trim(l.end_x);
    out.append(s3.as_str());
    out.append("MIL\n|END.Y=");
    let s4 = fmt_fix_trim(l.end_y);
    out.append(s4.as_str());
    out.append("MIL\n|WIDTH=");
    let s5 = fmt_fix_trim(l.width);
    out.append(s5.as_str());
    out.append("MIL\n\n");
    proof {
        assert(out@ =~= old(out)@ + pcb_line(*l));
    }
}

#[verifier::rlimit(100)]
fn write_pcb_arc(out: &mut String, a: &AdArc)
    requires
        ad_arc_fits(*a),
    ensures
        final(out)@ == old(out)@ + pcb_arc(*a),
{
    out.append("|RECORD=7\n|LAYER=");
    out.append(a.layer.as_str());
    out.append("\n|LOCATION.X=");
    let s1 = fmt_fix_trim(a.center_x);
    out.append(s1.as_str());
    out.append("MIL\n|LOCATION.Y=");
    let s2 = fmt_fix_trim(a.center_y);
    out.append(s2.as_str());
    out.append("MIL\n|RADIUS=");
    let s3 = fmt_fix_trim(a.radius);
    out.append(s3.as_str());
    out.append("MIL\n|STARTANGLE=");
    let s4 = fmt_fix_trim(a.start_angle);
    out.append(s4.as_str());
    out.append("\n|ENDANGLE=");
    let s5 = fmt_fix_trim(a.end_angle);
    out.append(s5.as_str());
    out.append("\n|WIDTH=");
    let s6 = fmt_fix_trim(a.width);
    out.append(s6.as_str());
    out.append("MIL\n\n");
    proof {
        assert(out@ =~= old(out)@ + pcb_arc(*a));
    }
}

#[verifier::rlimit(100)]
fn write_pcb_text(out: &mut String, t: &AdText)
    requires
        ad_fp_text_fits(*t),
    ensures
        final(out)@ == old(out)@ + pcb_text(*t),
{
    out.append("|RECORD=8\n|LAYER=");
    out.append(t.layer.as_str());
    out.append("\n|X=");
    let s1 = fmt_fix_trim(t.x);
    out.append(s1.as_str());
    out.append("MIL\n|Y=");
    let s2 = fmt_fix_trim(t.y);
    out.append(s2.as_str());
    out.append("MIL\n|TEXT=");
    let e = escape_string(t.text.as_str());
    out.append(e.as_str());
    out.append("\n|HEIGHT=");
    let s3 = fmt_fix_trim(t.height);
    out.append(s3.as_str());
    out.append("MIL\n|WIDTH=");
    let s4 = fmt_fix_trim(t.width);
    out.append(s4.as_str());
    out.append("MIL\n|ROTATION=");
    let s5 = fmt_fix_trim(t.rotation);
    out.append(s5.as_str());
    out.append("\n|FONTID=1\n\n");
    proof {
        assert(out@ =~= old(out)@ + pcb_text(*t));
    }
}

#[verifier::rlimit(100)]
fn write_pcb_model(out: &mut String, m: &Ad3DModel, uuid: &str)
    requires
        ad_model_fits(*m),
    ensures
        final(out)@ == old(out)@ + pcb_model(*m, uuid@),
{
    out.append("|RECORD=16\n|OWNERINDEX=0\n|MODELNAME=");
    let e = escape_string(m.filename.as_str());
    out.append(e.as_str());
    out.append("\n|MODELID={");
    out.append(uuid);
    out.append("}\n|MODELDESCRIPTION=\n|ROTATION.X=");
    let s1 = fmt_fix_trim(m.rotation_x);
    out.append(s1.as_str());
    out.append("\n|ROTATION.Y=");
    let s2 = fmt_fix_trim(m.rotation_y);
    out.append(s2.as_str());
    out.append("\n|ROTATION.Z=");
    let s3 = fmt_fix_trim(m.rotation_z);
    out.append(s3.as_str());
    out.append("\n|Z=");
    let s4 = fmt_fix_trim(m.offset_z);
    out.append(s4.as_str());
    out.append("MIL\n|CHECKSUM=\n|EMBEDSTEP=F\n\n");
    proof {
        assert(out@ =~= old(out)@ + pcb_model(*m, uuid@));
    }
}

} // verus!
