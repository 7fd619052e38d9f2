//! The KiCad footprint emitter: one `.kicad_mod` S-expression module.
//!
//! Each `fp_*_text` spec function is the exact text of one element; the
//! module always opens with a Reference text at the origin and a Value
//! text at (0, 2.5), and always closes with the 3D-model reference when
//! one is present.  Footprint geometry is already in millimetres and is
//! emitted unconverted, four decimals per coordinate.

use vstd::prelude::*;
use vstd::string::*;
use crate::kicad_footprint::{KiFootprint, KiPad, KiCircle, KiArc, KiLine, KiText, Ki3dModel,
    pad_type_lexeme, pad_shape_lexeme, ki_footprint_fits, fp_pad_fits, fp_circle_fits,
    fp_arc_fits, fp_line_fits, fp_text_fits, fp_model_fits};
use crate::num::{fix4, fmt_fix4, fits_coord};
use crate::lexer::{cat_map, lemma_cat_map_step, lemma_cat_map_full};
use crate::errors::AppError;

verus! {

/// The quoted layer list of a pad.
pub open spec fn layers_text(layers: Seq<Seq<char>>) -> Seq<char> {
    cat_map(layers, |l: Seq<char>| " \""@ + l + "\""@)
}

/// The head of a pad: number, kind, outline, position and size.
pub open spec fn pad_head(p: KiPad) -> Seq<char> {
    "  (pad \""@ + p.number@ + "\" "@ + pad_type_lexeme(p.pad_type) + " "@
        + pad_shape_lexeme(p.shape) + " (at "@ + fix4(p.pos_x as int) + " "@
        + fix4(p.pos_y as int)
        + (if p.rotation != 0 { " "@ + fix4(p.rotation as int) } else { Seq::<char>::empty() })
        + ") (size "@ + fix4(p.size_x as int) + " "@ + fix4(p.size_y as int) + ")"@
}

/// The drill clause of a pad: round, oval when a second axis is present,
/// absent for a surface pad.
pub open spec fn pad_drill(p: KiPad) -> Seq<char> {
    match p.drill {
        Some(d) => match d.width {
            Some(w) => " (drill oval "@ + fix4(d.diameter as int) + " "@
                + fix4(w as int) + ")"@,
            None => " (drill "@ + fix4(d.diameter as int) + ")"@,
        },
        None => Seq::<char>::empty(),
    }
}

/// One pad: the head, the layer set, an optional drill and an optional
/// custom polygon.
pub open spec fn pad_text(p: KiPad) -> Seq<char> {
    pad_head(p)
        + " (layers"@ + layers_text(p.layers.deep_view()) + ")"@
        + pad_drill(p)
        + (match p.polygon {
            Some(poly) => poly@,
            None => Seq::<char>::empty(),
        })
        + ")\n"@
}

pub open spec fn line_text(p: KiLine) -> Seq<char> {
    "  (fp_line (start "@ + fix4(p.start_x as int) + " "@ + fix4(p.start_y as int)
        + ") (end "@ + fix4(p.end_x as int) + " "@ + fix4(p.end_y as int)
        + ")\n    (stroke (width "@ + fix4(p.width as int)
        + ") (type solid)) (layer \""@ + p.layer@ + "\")\n  )\n"@
}

pub open spec fn circle_text(p: KiCircle) -> Seq<char> {
    "  (fp_circle (center "@ + fix4(p.center_x as int) + " "@ + fix4(p.center_y as int)
        + ") (end "@ + fix4(p.end_x as int) + " "@ + fix4(p.end_y as int)
        + ")\n    (stroke (width "@ + fix4(p.width as int) + ") (type solid)) (fill "@
        + (if p.fill { "solid"@ } else { "none"@ }) + ") (layer \""@ + p.layer@
        + "\")\n  )\n"@
}

pub open spec fn arc_text(p: KiArc) -> Seq<char> {
    "  (fp_arc (start "@ + fix4(p.start_x as int) + " "@ + fix4(p.start_y as int)
        + ") (mid "@ + fix4(p.mid_x as int) + " "@ + fix4(p.mid_y as int)
        + ") (end "@ + fix4(p.end_x as int) + " "@ + fix4(p.end_y as int)
        + ")\n    (stroke (width "@ + fix4(p.width as int) + ") (type solid)) (layer \""@
        + p.layer@ + "\")\n  )\n"@
}

pub open spec fn text_head(p: KiText) -> Seq<char> {
    "  (fp_text user \""@ + p.text@ + "\" (at "@ + fix4(p.pos_x as int) + " "@
        + fix4(p.pos_y as int)
        + (if p.rotation != 0 { " "@ + fix4(p.rotation as int) } else { Seq::<char>::empty() })
}

pub open spec fn text_text(p: KiText) -> Seq<char> {
    text_head(p)
        + ") (layer \""@ + p.layer@ + "\")\n    (effects (font (size "@ + fix4(p.size as int)
        + " "@ + fix4(p.size as int) + ") (thickness "@ + fix4(p.thickness as int)
        + ")))\n  )\n"@
}

pub open spec fn model_text(m: Ki3dModel) -> Seq<char> {
    "  (model \""@ + m.path@ + "\"\n    (offset (xyz "@ + fix4(m.offset.0 as int) + " "@
        + fix4(m.offset.1 as int) + " "@ + fix4(m.offset.2 as int)
        + "))\n    (scale (xyz "@ + fix4(m.scale.0 as int) + " "@ + fix4(m.scale.1 as int)
        + " "@ + fix4(m.scale.2 as int) + "))\n    (rotate (xyz "@ + fix4(m.rotate.0 as int)
        + " "@ + fix4(m.rotate.1 as int) + " "@ + fix4(m.rotate.2 as int) + "))\n  )\n"@
}

/// The whole footprint module.
pub open spec fn footprint_text(f: KiFootprint) -> Seq<char> {
    "(footprint \""@ + f.name@ + "\" (version 20221018) (generator nlbn)\n  (layer \"F.Cu\")\n"@
        + "  (fp_text reference \"REF**\" (at 0 0) (layer \"F.SilkS\")\n    (effects (font (size 1 1) (thickness 0.15)))\n  )\n"@
        + "  (fp_text value \""@ + f.name@
        + "\" (at 0 2.5) (layer \"F.Fab\")\n    (effects (font (size 1 1) (thickness 0.15)))\n  )\n"@
        + cat_map(f.pads@, |p: KiPad| pad_text(p))
        + cat_map(f.lines@, |p: KiLine| line_text(p))
        + cat_map(f.circles@, |p: KiCircle| circle_text(p))
        + cat_map(f.arcs@, |p: KiArc| arc_text(p))
        + cat_map(f.texts@, |p: KiText| text_text(p))
        + (match f.model_3d {
            Some(m) => model_text(m),
            None => Seq::<char>::empty(),
        })
        + ")\n"@
}

pub struct FootprintExporter;

impl FootprintExporter {
    pub fn new() -> (r: FootprintExporter)
    {
        FootprintExporter
    }

    /// Serialize a footprint module; the result is exactly
    /// `footprint_text`.
    #[verifier::rlimit(100)]
    pub fn export(&self, footprint: &KiFootprint) -> (r: Result<String, AppError>)
        requires
            ki_footprint_fits(*footprint),
        ensures
            r is Ok,
            r->Ok_0@ == footprint_text(*footprint),
    {
        let mut out = String::new();
        out.append("(footprint \"");
        out.append(footprint.name.as_str());
        out.append("\" (version 20221018) (generator nlbn)\n  (layer \"F.Cu\")\n");
        out.append("  (fp_text reference \"REF**\" (at 0 0) (layer \"F.SilkS\")\n    (effects (font (size 1 1) (thickness 0.15)))\n  )\n");
        out.append("  (fp_text value \"");
        out.append(footprint.name.as_str());
        out.append("\" (at 0 2.5) (layer \"F.Fab\")\n    (effects (font (size 1 1) (thickness 0.15)))\n  )\n");
        let ghost base1 = out@;
        let mut i: usize = 0;
        while i < footprint.pads.len()
            invariant
                0 <= i <= footprint.pads@.len(),
                ki_footprint_fits(*footprint),
                out@ == base1 + cat_map(footprint.pads@.take(i as int), |p: KiPad| pad_text(p)),
            decreases footprint.pads@.len() - i,
        {
            write_pad(&mut out, &footprint.pads[i]);
            proof {
                lemma_cat_map_step(footprint.pads@, |p: KiPad| pad_text(p), i as int);
            }
            i = i + 1;
        }
        proof {
            lemma_cat_map_full(footprint.pads@, |p: KiPad| pad_text(p));
        }
        let ghost base2 = out@;
        let mut i: usize = 0;
        while i < footprint.lines.len()
            invariant
                0 <= i <= footprint.lines@.len(),
                ki_footprint_fits(*footprint),
                out@ == base2 + cat_map(footprint.lines@.take(i as int), |p: KiLine| line_text(p)),
            decreases footprint.lines@.len() - i,
        {
            write_line(&mut out, &footprint.lines[i]);
            proof {
                lemma_cat_map_step(footprint.lines@, |p: KiLine| line_text(p), i as int);
            }
            i = i + 1;
        }
        proof {
            lemma_cat_map_full(footprint.lines@, |p: KiLine| line_text(p));
        }
        let ghost base3 = out@;
        let mut i: usize = 0;
        while i < footprint.circles.len()
            invariant
                0 <= i <= footprint.circles@.len(),
                ki_footprint_fits(*footprint),
                out@ == base3 + cat_map(footprint.circles@.take(i as int),
                    |p: KiCircle| circle_text(p)),
            decreases footprint.circles@.len() - i,
        {
            write_circle(&mut out, &footprint.circles[i]);
            proof {
                lemma_cat_map_step(footprint.circles@, |p: KiCircle| circle_text(p), i as int);
            }
            i = i + 1;
        }
        proof {
            lemma_cat_map_full(footprint.circles@, |p: KiCircle| circle_text(p));
        }
        let ghost base4 = out@;
        let mut i: usize = 0;
        while i < footprint.arcs.len()
            invariant
                0 <= i <= footprint.arcs@.len(),
                ki_footprint_fits(*footprint),
                out@ == base4 + cat_map(footprint.arcs@.take(i as int), |p: KiArc| arc_text(p)),
            decreases footprint.arcs@.len() - i,
        {
            write_arc(&mut out, &footprint.arcs[i]);
            proof {
                lemma_cat_map_step(footprint.arcs@, |p: KiArc| arc_text(p), i as int);
            }
            i = i + 1;
        }
        proof {
            lemma_cat_map_full(footprint.arcs@, |p: KiArc| arc_text(p));
        }
        let ghost base5 = out@;
        let mut i: usize = 0;
        while i < footprint.texts.len()
            invariant
                0 <= i <= footprint.texts@.len(),
                ki_footprint_fits(*footprint),
                out@ == base5 + cat_map(footprint.texts@.take(i as int), |p: KiText| text_text(p)),
            decreases footprint.texts@.len() - i,
        {
            write_text(&mut out, &footprint.texts[i]);
            proof {
                lemma_cat_map_step(footprint.texts@, |p: KiText| text_text(p), i as int);
            }
            i = i + 1;
        }
        proof {
            lemma_cat_map_full(footprint.texts@, |p: KiText| text_text(p));
        }
        match &footprint.model_3d {
            Some(m) => {
                write_model(&mut out, m);
            },
            None => {},
        }
        out.append(")\n");
        proof {
            assert(out@ =~= footprint_text(*footprint));
        }
        Ok(out)
    }
}

#[verifier::rlimit(100)]
fn write_pad(out: &mut String, p: &KiPad)
    requires
        fp_pad_fits(*p),
    ensures
        final(out)@ == old(out)@ + pad_text(*p),
{
    out.append("  (pad \"");
    out.append(p.number.as_str());
    out.append("\" ");
    out.append(p.pad_type.to_kicad());
    out.append(" ");
    out.append(p.shape.to_kicad());
    out.append(" (at ");
    let s1 = fmt_fix4(p.pos_x);
    out.append(s1.as_str());
    out.append(" ");
    let s2 = fmt_fix4(p.pos_y);
    out.append(s2.as_str());
    if p.rotation != 0 {
        out.append(" ");
        let s3 = fmt_fix4(p.rotation);
        out.append(s3.as_str());
    }
    out.append(") (size ");
    let s4 = fmt_fix4(p.size_x);
    out.append(s4.as_str());
    out.append(" ");
    let s5 = fmt_fix4(p.size_y);
    out.append(s5.as_str());
    out.append(")");
    proof {
        assert(out@ =~= old(out)@ + pad_head(*p));
    }
    let ghost after_head = out@;
    out.append(" (layers");
    let ghost base = out@;
    let mut i: usize = 0;
    while i < p.layers.len()
        invariant
            0 <= i <= p.layers@.len(),
            out@ == base + cat_map(p.layers.deep_view().take(i as int),
                |l: Seq<char>| " \""@ + l + "\""@),
            p.layers.deep_view().len() == p.layers@.len(),
        decreases p.layers@.len() - i,
    {
        out.append(" \"");
        out.append(p.layers[i].as_str());
        out.append("\"");
        proof {
            lemma_cat_map_step(p.layers.deep_view(), |l: Seq<char>| " \""@ + l + "\""@, i as int);
            assert(p.layers.deep_view()[i as int] == p.layers@[i as int]@);
            assert(out@ =~= base + cat_map(p.layers.deep_view().take(i as int),
                |l: Seq<char>| " \""@ + l + "\""@)
                + (" \""@ + p.layers.deep_view()[i as int] + "\""@));
        }
        i = i + 1;
    }
    proof {
        lemma_cat_map_full(p.layers.deep_view(), |l: Seq<char>| " \""@ + l + "\""@);
    }
    out.append(")");
    proof {
        assert(out@ =~= after_head + (" (layers"@ + layers_text(p.layers.deep_view()) + ")"@));
    }
    let ghost after_layers = out@;
    match &p.drill {
        Some(d) => {
            match d.width {
                Some(w) => {
                    out.append(" (drill oval ");
                    let s6 = fmt_fix4(d.diameter);
                    out.append(s6.as_str());
                    out.append(" ");
                    let s7 = fmt_fix4(w);
                    out.append(s7.as_str());
                    out.append(")");
                },
                None => {
                    out.append(" (drill ");
                    let s6 = fmt_fix4(d.diameter);
                    out.append(s6.as_str());
                    out.append(")");
                },
            }
        },
        None => {},
    }
    proof {
        assert(out@ =~= after_layers + pad_drill(*p));
    }
    let ghost after_drill = out@;
    match &p.polygon {
        Some(poly) => {
            out.append(poly.as_str());
        },
        None => {},
    }
    out.append(")\n");
    proof {
        assert(out@ =~= after_drill + (match p.polygon {
            Some(poly) => poly@,
            None => Seq::<char>::empty(),
        }) + ")\n"@);
        assert(out@ =~= old(out)@ + pad_text(*p));
    }
}

#[verifier::rlimit(100)]
fn write_line(out: &mut String, p: &KiLine)
    requires
        fp_line_fits(*p),
    ensures
        final(out)@ == old(out)@ + line_text(*p),
{
    out.append("  (fp_line (start ");
    let s1 = fmt_fix4(p.start_x);
    out.append(s1.as_str());
    out.append(" ");
    let s2 = fmt_fix4(p.start_y);
    out.append(s2.as_str());
    out.append(") (end ");
    let s3 = fmt_fix4(p.end_x);
    out.append(s3.as_str());
    out.append(" ");
    let s4 = fmt_fix4(p.end_y);
    out.append(s4.as_str());
    out.append(")\n    (stroke (width ");
    let s5 = fmt_fix4(p.width);
    out.append(s5.as_str());
    out.append(") (type solid)) (layer \"");
    out.append(p.layer.as_str());
    out.append("\")\n  )\n");
    proof {
        assert(out@ =~= old(out)@ + line_text(*p));
    }
}

#[verifier::rlimit(100)]
fn write_circle(out: &mut String, p: &KiCircle)
    requires
        fp_circle_fits(*p),
    ensures
        final(out)@ == old(out)@ + circle_text(*p),
{
    out.append("  (fp_circle (center ");
    let s1 = fmt_fix4(p.center_x);
    out.append(s1.as_str());
    out.append(" ");
    let s2 = fmt_fix4(p.center_y);
    out.append(s2.as_str());
    out.append(") (end ");
    let s3 = fmt_fix4(p.end_x);
    out.append(s3.as_str());
    out.append(" ");
    let s4 = fmt_fix4(p.end_y);
    out.append(s4.as_str());
    out.append(")\n    (stroke (width ");
    let s5 = fmt_fix4(p.width);
    out.append(s5.as_str());
    out.append(") (type solid)) (fill ");
    if p.fill {
        out.append("solid");
    } else {
        out.append("none");
    }
    out.append(") (layer \"");
    out.append(p.layer.as_str());
    out.append("\")\n  )\n");
    proof {
        assert(out@ =~= old(out)@ + circle_text(*p));
    }
}

#[verifier::rlimit(100)]
fn write_arc(out: &mut String, p: &KiArc)
    requires
        fp_arc_fits(*p),
    ensures
        final(out)@ == old(out)@ + arc_text(*p),
{
    out.append("  (fp_arc (start ");
    let s1 = fmt_fix4(p.start_x);
    out.append(s1.as_str());
    out.append(" ");
    let s2 = fmt_fix4(p.start_y);
    out.append(s2.as_str());
    out.append(") (mid ");
    let s3 = fmt_fix4(p.mid_x);
    out.append(s3.as_str());
    out.append(" ");
    let s4 = fmt_fix4(p.mid_y);
    out.append(s4.as_str());
    out.append(") (end ");
    let s5 = fmt_fix4(p.end_x);
    out.append(s5.as_str());
    out.append(" ");
    let s6 = fmt_fix4(p.end_y);
    out.append(s6.as_str());
    out.append(")\n    (stroke (width ");
    let s7 = fmt_fix4(p.width);
    out.append(s7.as_str());
    out.append(") (type solid)) (layer \"");
    out.append(p.layer.as_str());
    out.append("\")\n  )\n");
    proof {
        assert(out@ =~= old(out)@ + arc_text(*p));
    }
}

#[verifier::rlimit(100)]
fn write_text(out: &mut String, p: &KiText)
    requires
        fp_text_fits(*p),
    ensures
        final(out)@ == old(out)@ + text_text(*p),
{
    out.append("  (fp_text user \"");
    out.append(p.text.as_str());
    out.append("\" (at ");
    let s1 = fmt_fix4(p.pos_x);
    out.append(s1.as_str());
    out.append(" ");
    let s2 = fmt_fix4(p.pos_y);
    out.append(s2.as_str());
    if p.rotation != 0 {
        out.append(" ");
        let s3 = fmt_fix4(p.rotation);
        out.append(s3.as_str());
    }
    proof {
        assert(out@ =~= old(out)@ + text_head(*p));
    }
    let ghost after_head = out@;
    out.append(") (layer \"");
    out.append(p.layer.as_str());
    out.append("\")\n    (effects (font (size ");
    let s4 = fmt_fix4(p.size);
    out.append(s4.as_str());
    out.append(" ");
    let s5 = fmt_fix4(p.size);
    out.append(s5.as_str());
    out.append(") (thickness ");
    let s6 = fmt_fix4(p.thickness);
    out.append(s6.as_str());
    out.append(")))\n  )\n");
    proof {
        assert(out@ =~= after_head + (") (layer \""@ + p.layer@
            + "\")\n    (effects (font (size "@ + fix4(p.size as int)
            + " "@ + fix4(p.size as int) + ") (thickness "@ + fix4(p.thickness as int)
            + ")))\n  )\n"@));
        assert(out@ =~= old(out)@ + text_text(*p));
    }
}

#[verifier::rlimit(100)]
fn write_model(out: &mut String, m: &Ki3dModel)
    requires
        fp_model_fits(*m),
    ensures
        final(out)@ == old(out)@ + model_text(*m),
{
    out.append("  (model \"");
    out.append(m.path.as_str());
    out.append("\"\n    (offset (xyz ");
    let s1 = fmt_fix4(m.offset.0);
    out.append(s1.as_str());
    out.append(" ");
    let s2 = fmt_fix4(m.offset.1);
    out.append(s2.as_str());
    out.append(" ");
    let s3 = fmt_fix4(m.offset.2);
    out.append(s3.as_str());
    out.append("))\n    (scale (xyz ");
    let s4 = fmt_fix4(m.scale.0);
    out.append(s4.as_str());
    out.append(" ");
    let s5 = fmt_fix4(m.scale.1);
    out.append(s5.as_str());
    out.append(" ");
    let s6 = fmt_fix4(m.scale.2);
    out.append(s6.as_str());
    out.append("))\n    (rotate (xyz ");
    let s7 = fmt_fix4(m.rotate.0);
    out.append(s7.as_str());
    out.append(" ");
    let s8 = fmt_fix4(m.rotate.1);
    out.append(s8.as_str());
    out.append(" ");
    let s9 = fmt_fix4(m.rotate.2);
    out.append(s9.as_str());
    out.append("))\n  )\n");
    proof {
        assert(out@ =~= old(out)@ + model_text(*m));
    }
}

} // verus!
