//! Altium schematic symbol model and its `.SchLib` record emitter.
//!
//! The file is line oriented: each record opens with `|RECORD=<n>`, every
//! value stands after `|KEY=`, records are separated by a blank line.
//! Values are escaped: `|` becomes `\|`, a line feed becomes a space, a
//! carriage return is dropped.  Coordinates are integer mils.

use vstd::prelude::*;
use vstd::string::*;
use crate::num::{dec_i, fmt_i64};
use crate::lexer::{cat_map, lemma_cat_map_step, lemma_cat_map_full};

verus! {

/// The electrical class of a pin.
#[derive(Debug, Clone, Copy, PartialEq, Eq, Structural)]
pub enum PinElectrical {
    Input,
    IO,
    Output,
    OpenCollector,
    Passive,
    HiZ,
    OpenEmitter,
    Power,
}

pub open spec fn electrical_code(e: PinElectrical) -> int {
    match e {
        PinElectrical::Input => 0,
        PinElectrical::IO => 1,
        PinElectrical::Output => 2,
        PinElectrical::OpenCollector => 3,
        PinElectrical::Passive => 4,
        PinElectrical::HiZ => 5,
        PinElectrical::OpenEmitter => 6,
        PinElectrical::Power => 7,
    }
}

impl PinElectrical {
    /// The numeric `ELECTRICAL` code of the class.
    pub fn to_altium_code(&self) -> (r: i64)
        ensures
            r as int == electrical_code(*self),
    {
        match self {
            PinElectrical::Input => 0,
            PinElectrical::IO => 1,
            PinElectrical::Output => 2,
            PinElectrical::OpenCollector => 3,
            PinElectrical::Passive => 4,
            PinElectrical::HiZ => 5,
            PinElectrical::OpenEmitter => 6,
            PinElectrical::Power => 7,
        }
    }
}

/// Which way a pin points.
#[derive(Debug, Clone, Copy, PartialEq, Eq, Structural)]
pub enum PinOrientation {
    Right,
    Left,
    Up,
    Down,
}

pub open spec fn orientation_code(o: PinOrientation) -> int {
    match o {
        PinOrientation::Right => 0,
        PinOrientation::Up => 1,
        PinOrientation::Left => 2,
        PinOrientation::Down => 3,
    }
}

impl PinOrientation {
    /// The numeric `PINCONGLOMERATE` code of the orientation.
    pub fn to_altium_code(&self) -> (r: i64)
        ensures
            r as int == orientation_code(*self),
    {
        match self {
            PinOrientation::Right => 0,
            PinOrientation::Up => 1,
            PinOrientation::Left => 2,
            PinOrientation::Down => 3,
        }
    }
}

pub struct AdSymbol {
    pub libref: String,
    pub description: String,
    pub pins: Vec<AdPin>,
    pub rectangles: Vec<AdRectangle>,
    pub lines: Vec<AdLine>,
    pub texts: Vec<AdText>,
}

pub struct AdPin {
    pub x: i64,
    pub y: i64,
    pub length: i64,
    pub name: String,
    pub designator: String,
    pub electrical: PinElectrical,
    pub orientation: PinOrientation,
}

pub struct AdRectangle {
    pub x: i64,
    pub y: i64,
    pub width: i64,
    pub height: i64,
    pub color: i64,
    pub is_solid: bool,
}

pub struct AdLine {
    pub start_x: i64,
    pub start_y: i64,
    pub end_x: i64,
    pub end_y: i64,
    pub width: i64,
    pub color: i64,
}

pub struct AdText {
    pub x: i64,
    pub y: i64,
    pub text: String,
    pub height: i64,
    pub rotation: i64,
}

/// One escaped character of a record value.
pub open spec fn esc_char(c: char) -> Seq<char> {
    if c == '|' { seq!['\\', '|'] }
    else if c == '\n' { seq![' '] }
    else if c == '\r' { Seq::<char>::empty() }
    else { seq![c] }
}

/// A record value with `|` escaped, line feeds blanked and carriage
/// returns dropped.
pub open spec fn escape_spec(s: Seq<char>) -> Seq<char>
    decreases s.len(),
{
    if s.len() == 0 {
        Seq::<char>::empty()
    } else {
        escape_spec(s.drop_last()) + esc_char(s.last())
    }
}

/// Escape a value for a record line.
pub fn escape_string(s: &str) -> (r: String)
    ensures
        r@ == escape_spec(s@),
{
    let n = s.unicode_len();
    let mut out = String::new();
    let mut i: usize = 0;
    proof {
        reveal_strlit("\\|");
        reveal_strlit(" ");
        assert(out@ =~= escape_spec(s@.take(0)));
    }
    while i < n
        invariant
            0 <= i <= n,
            n == s@.len(),
            out@ == escape_spec(s@.take(i as int)),
        decreases n - i,
    {
        proof {
            reveal_strlit("\\|");
            reveal_strlit(" ");
            assert(s@.take(i + 1).drop_last() =~= s@.take(i as int));
            assert(s@.take(i + 1).last() == s@[i as int]);
        }
        let c = s.get_char(i);
        if c == '|' {
            out.append("\\|");
        } else if c == '\n' {
            out.append(" ");
        } else if c == '\r' {
        } else {
            let piece = s.substring_char(i, i + 1);
            proof {
                assert(piece@ =~= seq![s@[i as int]]);
            }
            out.append(piece);
        }
        proof {
            assert(out@ =~= escape_spec(s@.take(i + 1)));
        }
        i = i + 1;
    }
    proof {
        assert(s@.take(n as int) =~= s@);
    }
    out
}

/// The file header.
pub open spec fn sch_header() -> Seq<char> {
    "|HEADER=Protel for Windows - Schematic Library Editor Binary File Version 5.0\n|WEIGHT=748\n|MINORVERSION=2\n|USEMBCS=T\n\n"@
}

/// The component record.
pub open spec fn sch_component(s: AdSymbol) -> Seq<char> {
    "|RECORD=1\n|LIBREF="@ + escape_spec(s.libref@) + "\n|COMPONENTDESCRIPTION="@
        + escape_spec(s.description@)
        + "\n|PARTCOUNT=1\n|DISPLAYMODECOUNT=1\n|INDEXINSHEET=-1\n|OWNERPARTID=-1\n|LOCATION.X=0\n|LOCATION.Y=0\n|LIBRARYPATH=*\n|SOURCELIBRARYNAME=*\n|TARGETFILENAME=*\n\n"@
}

/// One rectangle record.
pub open spec fn sch_rect(r: AdRectangle) -> Seq<char> {
    "|RECORD=2\n|OWNERINDEX=1\n|OWNERPARTID=-1\n|LOCATION.X="@ + dec_i(r.x as int)
        + "\n|LOCATION.Y="@ + dec_i(r.y as int) + "\n|CORNER.X="@ + dec_i(r.x + r.width)
        + "\n|CORNER.Y="@ + dec_i(r.y + r.height) + "\n|COLOR="@ + dec_i(r.color as int)
        + "\n|AREACOLOR=16777215\n|ISSOLID="@ + (if r.is_solid { "T"@ } else { "F"@ })
        + "\n|LINEWIDTH=1\n\n"@
}

/// One line record.
pub open spec fn sch_line(l: AdLine) -> Seq<char> {
    "|RECORD=13\n|OWNERINDEX=1\n|OWNERPARTID=-1\n|LINEWIDTH="@ + dec_i(l.width as int)
        + "\n|COLOR="@ + dec_i(l.color as int) + "\n|LOCATIONCOUNT=2\n|X1="@
        + dec_i(l.start_x as int) + "\n|Y1="@ + dec_i(l.start_y as int) + "\n|X2="@
        + dec_i(l.end_x as int) + "\n|Y2="@ + dec_i(l.end_y as int) + "\n\n"@
}

/// Truncating division by 90, for the text orientation code.
pub open spec fn tdiv90(a: int) -> int {
    if a >= 0 { a / 90 } else { -((-a) / 90) }
}

/// One text record; the orientation is the quarter-turn count.
pub open spec fn sch_text(t: AdText) -> Seq<char> {
    "|RECORD=4\n|OWNERINDEX=1\n|OWNERPARTID=-1\n|LOCATION.X="@ + dec_i(t.x as int)
        + "\n|LOCATION.Y="@ + dec_i(t.y as int) + "\n|TEXT="@ + escape_spec(t.text@)
        + "\n|FONTID=1\n|COLOR=0\n|ORIENTATION="@ + dec_i(tdiv90(t.rotation as int)) + "\n\n"@
}

/// One pin record.
pub open spec fn sch_pin(p: AdPin) -> Seq<char> {
    "|RECORD=41\n|OWNERINDEX=1\n|OWNERPARTID=-1\n|LOCATION.X="@ + dec_i(p.x as int)
        + "\n|LOCATION.Y="@ + dec_i(p.y as int) + "\n|PINLENGTH="@ + dec_i(p.length as int)
        + "\n|ELECTRICAL="@ + dec_i(electrical_code(p.electrical))
        + "\n|PINCONGLOMERATE="@ + dec_i(orientation_code(p.orientation))
        + "\n|NAME="@ + escape_spec(p.name@) + "\n|DESIGNATOR="@ + escape_spec(p.designator@)
        + "\n|SWAPIDPIN=\n|SWAPIDPART=\n|COLOR=0\n|PINNAME_POSITIONCONGLOMERATE=11\n\n"@
}

/// The whole `.SchLib` text: header, component, rectangles, lines, texts,
/// pins.
pub open spec fn schlib_text(s: AdSymbol) -> Seq<char> {
    sch_header() + sch_component(s)
        + cat_map(s.rectangles@, |r: AdRectangle| sch_rect(r))
        + cat_map(s.lines@, |l: AdLine| sch_line(l))
        + cat_map(s.texts@, |t: AdText| sch_text(t))
        + cat_map(s.pins@, |p: AdPin| sch_pin(p))
}

pub open spec fn ad_symbol_fits(s: AdSymbol) -> bool {
    &&& forall|i: int| 0 <= i < s.pins@.len() ==> ad_pin_fits(#[trigger] s.pins@[i])
    &&& forall|i: int| 0 <= i < s.rectangles@.len() ==> ad_rect_fits(#[trigger] s.rectangles@[i])
    &&& forall|i: int| 0 <= i < s.lines@.len() ==> ad_line_fits(#[trigger] s.lines@[i])
    &&& forall|i: int| 0 <= i < s.texts@.len() ==> ad_text_fits(#[trigger] s.texts@[i])
}

pub open spec fn ad_pin_fits(p: AdPin) -> bool {
    &&& -1000000000000 <= p.x <= 1000000000000
    &&& -1000000000000 <= p.y <= 1000000000000
    &&& 0 <= p.length <= 1000000000000
}

pub open spec fn ad_rect_fits(r: AdRectangle) -> bool {
    &&& -2000000000000 <= r.x <= 2000000000000
    &&& -2000000000000 <= r.y <= 2000000000000
    &&& -4000000000000 <= r.width <= 4000000000000
    &&& -4000000000000 <= r.height <= 4000000000000
    &&& 0 <= r.color <= 16777215
}

pub open spec fn ad_line_fits(l: AdLine) -> bool {
    &&& -1000000000000 <= l.start_x <= 1000000000000
    &&& -1000000000000 <= l.start_y <= 1000000000000
    &&& -1000000000000 <= l.end_x <= 1000000000000
    &&& -1000000000000 <= l.end_y <= 1000000000000
    &&& 0 <= l.width <= 1000000000000
    &&& 0 <= l.color <= 16777215
}

pub open spec fn ad_text_fits(t: AdText) -> bool {
    &&& -1000000000000 <= t.x <= 1000000000000
    &&& -1000000000000 <= t.y <= 1000000000000
    &&& -1000000000000 <= t.rotation <= 1000000000000
}

/// The `.SchLib` emitter.
pub struct SymbolExporter;

impl SymbolExporter {
    pub fn new() -> (r: SymbolExporter)
    {
        SymbolExporter
    }

    /// Serialize the symbol; the result is exactly `schlib_text`.
    pub fn export(&self, symbol: &AdSymbol) -> (r: String)
        requires
            ad_symbol_fits(*symbol),
        ensures
            r@ == schlib_text(*symbol),
    {
        let mut out = String::new();
        out.append("|HEADER=Protel for Windows - Schematic Library Editor Binary File Version 5.0\n|WEIGHT=748\n|MINORVERSION=2\n|USEMBCS=T\n\n");
        out.append("|RECORD=1\n|LIBREF=");
        let e1 = escape_string(symbol.libref.as_str());
        out.append(e1.as_str());
        out.append("\n|COMPONENTDESCRIPTION=");
        let e2 = escape_string(symbol.description.as_str());
        out.append(e2.as_str());
        out.append("\n|PARTCOUNT=1\n|DISPLAYMODECOUNT=1\n|INDEXINSHEET=-1\n|OWNERPARTID=-1\n|LOCATION.X=0\n|LOCATION.Y=0\n|LIBRARYPATH=*\n|SOURCELIBRARYNAME=*\n|TARGETFILENAME=*\n\n");
        proof {
            assert(out@ =~= sch_header() + sch_component(*symbol));
        }
        let ghost base1 = out@;
        let mut i: usize = 0;
        while i < symbol.rectangles.len()
            invariant
                0 <= i <= symbol.rectangles@.len(),
                ad_symbol_fits(*symbol),
                out@ == base1 + cat_map(symbol.rectangles@.take(i as int),
                    |r: AdRectangle| sch_rect(r)),
            decreases symbol.rectangles@.len() - i,
        {
            write_sch_rect(&mut out, &symbol.rectangles[i]);
            proof {
                lemma_cat_map_step(symbol.rectangles@, |r: AdRectangle| sch_rect(r), i as int);
            }
            i = i + 1;
        }
        proof {
            lemma_cat_map_full(symbol.rectangles@, |r: AdRectangle| sch_rect(r));
        }
        let ghost base2 = out@;
        let mut i: usize = 0;
        while i < symbol.lines.len()
            invariant
                0 <= i <= symbol.lines@.len(),
                ad_symbol_fits(*symbol),
                out@ == base2 + cat_map(symbol.lines@.take(i as int), |l: AdLine| sch_line(l)),
            decreases symbol.lines@.len() - i,
        {
            write_sch_line(&mut out, &symbol.lines[i]);
            proof {
                lemma_cat_map_step(symbol.lines@, |l: AdLine| sch_line(l), i as int);
            }
            i = i + 1;
        }
        proof {
            lemma_cat_map_full(symbol.lines@, |l: AdLine| sch_line(l));
        }
        let ghost base3 = out@;
        let mut i: usize = 0;
        while i < symbol.texts.len()
            invariant
                0 <= i <= symbol.texts@.len(),
                ad_symbol_fits(*symbol),
                out@ == base3 + cat_map(symbol.texts@.take(i as int), |t: AdText| sch_text(t)),
            decreases symbol.texts@.len() - i,
        {
            write_sch_text(&mut out, &symbol.texts[i]);
            proof {
                lemma_cat_map_step(symbol.texts@, |t: AdText| sch_text(t), i as int);
            }
            i = i + 1;
        }
        proof {
            lemma_cat_map_full(symbol.texts@, |t: AdText| sch_text(t));
        }
        let ghost base4 = out@;
        let mut i: usize = 0;
        while i < symbol.pins.len()
            invariant
                0 <= i <= symbol.pins@.len(),
                ad_symbol_fits(*symbol),
                out@ == base4 + cat_map(symbol.pins@.take(i as int), |p: AdPin| sch_pin(p)),
            decreases symbol.pins@.len() - i,
        {
            write_sch_pin(&mut out, &symbol.pins[i]);
            proof {
                lemma_cat_map_step(symbol.pins@, |p: AdPin| sch_pin(p), i as int);
            }
            i = i + 1;
        }
        proof {
            lemma_cat_map_full(symbol.pins@, |p: AdPin| sch_pin(p));
        }
        proof {
            assert(out@ =~= schlib_text(*symbol));
        }
        out
    }
}

#[verifier::rlimit(100)]
fn write_sch_rect(out: &mut String, r: &AdRectangle)
    requires
        ad_rect_fits(*r),
    ensures
        final(out)@ == old(out)@ + sch_rect(*r),
{
    out.append("|RECORD=2\n|OWNERINDEX=1\n|OWNERPARTID=-1\n|LOCATION.X=");
    let s1 = fmt_i64(r.x);
    out.append(s1.as_str());
    out.append("\n|LOCATION.Y=");
    let s2 = fmt_i64(r.y);
    out.append(s2.as_str());
    out.append("\n|CORNER.X=");
    let s3 = fmt_i64(r.x + r.width);
    out.append(s3.as_str());
    out.append("\n|CORNER.Y=");
    let s4 = fmt_i64(r.y + r.height);
    out.append(s4.as_str());
    out.append("\n|COLOR=");
    let s5 = fmt_i64(r.color);
    out.append(s5.as_str());
    out.append("\n|AREACOLOR=16777215\n|ISSOLID=");
    if r.is_solid {
        out.append("T");
    } else {
        out.append("F");
    }
    out.append("\n|LINEWIDTH=1\n\n");
    proof {
        assert(out@ =~= old(out)@ + sch_rect(*r));
    }
}

#[verifier::rlimit(100)]
fn write_sch_line(out: &mut String, l: &AdLine)
    requires
        ad_line_fits(*l),
    ensures
        final(out)@ == old(out)@ + sch_line(*l),
{
    out.append("|RECORD=13\n|OWNERINDEX=1\n|OWNERPARTID=-1\n|LINEWIDTH=");
    let s1 = fmt_i64(l.width);
    out.append(s1.as_str());
    out.append("\n|COLOR=");
    let s2 = fmt_i64(l.color);
    out.append(s2.as_str());
    out.append("\n|LOCATIONCOUNT=2\n|X1=");
    let s3 = fmt_i64(l.start_x);
    out.append(s3.as_str());
    out.append("\n|Y1=");
    let s4 = fmt_i64(l.start_y);
    out.append(s4.as_str());
    out.append("\n|X2=");
    let s5 = fmt_i64(l.end_x);
    out.append(s5.as_str());
    out.append("\n|Y2=");
    let s6 = fmt_i64(l.end_y);
    out.append(s6.as_str());
    out.append("\n\n");
    proof {
        assert(out@ =~= old(out)@ + sch_line(*l));
    }
}

#[verifier::rlimit(100)]
fn write_sch_text(out: &mut String, t: &AdText)
    requires
        ad_text_fits(*t),
    ensures
        final(out)@ == old(out)@ + sch_text(*t),
{
    out.append("|RECORD=4\n|OWNERINDEX=1\n|OWNERPARTID=-1\n|LOCATION.X=");
    let s1 = fmt_i64(t.x);
    out.append(s1.as_str());
    out.append("\n|LOCATION.Y=");
    let s2 = fmt_i64(t.y);
    out.append(s2.as_str());
    out.append("\n|TEXT=");
    let e = escape_string(t.text.as_str());
    out.append(e.as_str());
    out.append("\n|FONTID=1\n|COLOR=0\n|ORIENTATION=");
    let o: i64 = if t.rotation >= 0 { t.rotation / 90 } else { -((-t.rotation) / 90) };
    let s3 = fmt_i64(o);
    out.append(s3.as_str());
    out.append("\n\n");
    proof {
        assert(out@ =~= old(out)@ + sch_text(*t));
    }
}

#[verifier::rlimit(100)]
fn write_sch_pin(out: &mut String, p: &AdPin)
    requires
        ad_pin_fits(*p),
    ensures
        final(out)@ == old(out)@ + sch_pin(*p),
{
    out.append("|RECORD=41\n|OWNERINDEX=1\n|OWNERPARTID=-1\n|LOCATION.X=");
    let s1 = fmt_i64(p.x);
    out.append(s1.as_str());
    out.append("\n|LOCATION.Y=");
    let s2 = fmt_i64(p.y);
    out.append(s2.as_str());
    out.append("\n|PINLENGTH=");
    let s3 = fmt_i64(p.length);
    out.append(s3.as_str());
    out.append("\n|ELECTRICAL=");
    let s4 = fmt_i64(p.electrical.to_altium_code());
    out.append(s4.as_str());
    out.append("\n|PINCONGLOMERATE=");
    let s5 = fmt_i64(p.orientation.to_altium_code());
    out.append(s5.as_str());
    out.append("\n|NAME=");
    let e1 = escape_string(p.name.as_str());
    out.append(e1.as_str());
    out.append("\n|DESIGNATOR=");
    let e2 = escape_string(p.designator.as_str());
    out.append(e2.as_str());
    out.append("\n|SWAPIDPIN=\n|SWAPIDPART=\n|COLOR=0\n|PINNAME_POSITIONCONGLOMERATE=11\n\n");
    proof {
        assert(out@ =~= old(out)@ + sch_pin(*p));
    }
}

} // verus!
