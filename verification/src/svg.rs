//! The SVG-subset path parser.
//!
//! Path strings hold only absolute `M`, `L`, `A` and `Z` commands.  Numeric
//! fields are separated by commas or whitespace.  A malformed command is
//! skipped one character at a time; the parse fails only when no command at
//! all could be read.  `svg_parse_from` is the grammar itself, written as a
//! specification; the executable parser returns exactly its value.

use vstd::prelude::*;
use vstd::string::*;
use crate::num::{parse_fixed_spec, parse_fixed, fits_coord};

verus! {

/// One parsed path command, coordinates in fixed-point source units.
#[derive(Debug, Clone, PartialEq, Eq, Structural)]
pub enum SvgCommand {
    MoveTo { x: i64, y: i64 },
    LineTo { x: i64, y: i64 },
    Arc { rx: i64, ry: i64, angle: i64, large_arc: bool, sweep: bool, x: i64, y: i64 },
    ClosePath,
}

pub open spec fn is_ws(c: char) -> bool {
    c == ' ' || c == '\t' || c == '\n' || c == '\r'
}

pub open spec fn is_sep(c: char) -> bool {
    is_ws(c) || c == ','
}

/// The characters a numeric token is made of.
pub open spec fn is_num_char(c: char) -> bool {
    c == '-' || c == '.' || ('0' <= c && c <= '9')
}

/// End of the run of characters satisfying `p`, starting at `i`.
pub open spec fn run_end(s: Seq<char>, i: int, p: spec_fn(char) -> bool) -> int
    decreases s.len() - i when 0 <= i <= s.len()
{
    if i >= s.len() {
        i
    } else if p(s[i]) {
        run_end(s, i + 1, p)
    } else {
        i
    }
}

pub proof fn lemma_run_end(s: Seq<char>, i: int, p: spec_fn(char) -> bool)
    requires
        0 <= i <= s.len(),
    ensures
        i <= run_end(s, i, p) <= s.len(),
        forall|k: int| i <= k < run_end(s, i, p) ==> p(#[trigger] s[k]),
        run_end(s, i, p) < s.len() ==> !p(s[run_end(s, i, p)]),
    decreases s.len() - i,
{
    if i < s.len() && p(s[i]) {
        lemma_run_end(s, i + 1, p);
    }
}

pub proof fn lemma_run_end_unique(s: Seq<char>, i: int, j: int, p: spec_fn(char) -> bool)
    requires
        0 <= i <= j <= s.len(),
        forall|k: int| i <= k < j ==> p(#[trigger] s[k]),
        j < s.len() ==> !p(s[j]),
    ensures
        run_end(s, i, p) == j,
    decreases j - i,
{
    if i < j {
        lemma_run_end_unique(s, i + 1, j, p);
    }
}

/// What a two-coordinate command (`M` or `L`) matches, starting just after
/// the command letter: optional whitespace, a numeric token, one or more
/// separators, a numeric token.  Both tokens must be valid decimals.
pub open spec fn match_xy(s: Seq<char>, i: int) -> Option<(int, int, int)> {
    let a = run_end(s, i, |c: char| is_ws(c));
    let a2 = run_end(s, a, |c: char| is_num_char(c));
    let b = run_end(s, a2, |c: char| is_sep(c));
    let b2 = run_end(s, b, |c: char| is_num_char(c));
    if a2 == a || b == a2 || b2 == b {
        None
    } else {
        match (parse_fixed_spec(s.subrange(a, a2)), parse_fixed_spec(s.subrange(b, b2))) {
            (Some(x), Some(y)) => Some((x, y, b2)),
            _ => None,
        }
    }
}

/// One numeric token followed by at least one separator, starting at `i`.
pub open spec fn match_num_sep(s: Seq<char>, i: int) -> Option<(int, int)> {
    let a2 = run_end(s, i, |c: char| is_num_char(c));
    let b = run_end(s, a2, |c: char| is_sep(c));
    if a2 == i || b == a2 {
        None
    } else {
        match parse_fixed_spec(s.subrange(i, a2)) {
            Some(v) => Some((v, b)),
            None => None,
        }
    }
}

/// A single `0`/`1` flag followed by at least one separator.
pub open spec fn match_flag(s: Seq<char>, i: int) -> Option<(bool, int)> {
    if i < s.len() && (s[i] == '0' || s[i] == '1') {
        let b = run_end(s, i + 1, |c: char| is_sep(c));
        if b == i + 1 {
            None
        } else {
            Some((s[i] == '1', b))
        }
    } else {
        None
    }
}

/// What an `A` command matches, starting just after the letter: whitespace,
/// three numbers, two flags and two final numbers, with separators between.
pub open spec fn match_arc(s: Seq<char>, i: int) -> Option<(int, int, int, bool, bool, int, int, int)> {
    let a = run_end(s, i, |c: char| is_ws(c));
    match match_num_sep(s, a) {
        None => None,
        Some((rx, p1)) => match match_num_sep(s, p1) {
            None => None,
            Some((ry, p2)) => match match_num_sep(s, p2) {
                None => None,
                Some((angle, p3)) => match match_flag(s, p3) {
                    None => None,
                    Some((large_arc, p4)) => match match_flag(s, p4) {
                        None => None,
                        Some((sweep, p5)) => match match_num_sep(s, p5) {
                            None => None,
                            Some((x, p6)) => {
                                let e = run_end(s, p6, |c: char| is_num_char(c));
                                if e == p6 {
                                    None
                                } else {
                                    match parse_fixed_spec(s.subrange(p6, e)) {
                                        Some(y) => Some((rx, ry, angle, large_arc, sweep, x, e, y)),
                                        None => None,
                                    }
                                }
                            },
                        },
                    },
                },
            },
        },
    }
}

/// Spec-level image of one command.
pub open spec fn cmd_move(x: int, y: int) -> SvgCommand {
    SvgCommand::MoveTo { x: x as i64, y: y as i64 }
}

pub open spec fn cmd_line(x: int, y: int) -> SvgCommand {
    SvgCommand::LineTo { x: x as i64, y: y as i64 }
}

pub open spec fn cmd_arc(rx: int, ry: int, angle: int, la: bool, sw: bool, x: int, y: int) -> SvgCommand {
    SvgCommand::Arc {
        rx: rx as i64,
        ry: ry as i64,
        angle: angle as i64,
        large_arc: la,
        sweep: sw,
        x: x as i64,
        y: y as i64,
    }
}

proof fn lemma_match_xy_advances(s: Seq<char>, i: int)
    requires
        0 <= i <= s.len(),
    ensures
        match_xy(s, i) is Some ==> i < match_xy(s, i)->Some_0.2 <= s.len(),
{
    lemma_run_end(s, i, |c: char| is_ws(c));
    let a = run_end(s, i, |c: char| is_ws(c));
    lemma_run_end(s, a, |c: char| is_num_char(c));
    let a2 = run_end(s, a, |c: char| is_num_char(c));
    lemma_run_end(s, a2, |c: char| is_sep(c));
    let b = run_end(s, a2, |c: char| is_sep(c));
    lemma_run_end(s, b, |c: char| is_num_char(c));
}

proof fn lemma_match_num_sep_advances(s: Seq<char>, i: int)
    requires
        0 <= i <= s.len(),
    ensures
        match_num_sep(s, i) is Some ==> i < match_num_sep(s, i)->Some_0.1 <= s.len(),
{
    lemma_run_end(s, i, |c: char| is_num_char(c));
    let a2 = run_end(s, i, |c: char| is_num_char(c));
    lemma_run_end(s, a2, |c: char| is_sep(c));
}

proof fn lemma_match_flag_advances(s: Seq<char>, i: int)
    requires
        0 <= i <= s.len(),
    ensures
        match_flag(s, i) is Some ==> i < match_flag(s, i)->Some_0.1 <= s.len(),
{
    if i < s.len() {
        lemma_run_end(s, i + 1, |c: char| is_sep(c));
    }
}

proof fn lemma_match_arc_advances(s: Seq<char>, i: int)
    requires
        0 <= i <= s.len(),
    ensures
        match_arc(s, i) is Some ==> i < match_arc(s, i)->Some_0.6 <= s.len(),
{
    lemma_run_end(s, i, |c: char| is_ws(c));
    let a = run_end(s, i, |c: char| is_ws(c));
    lemma_match_num_sep_advances(s, a);
    if match_num_sep(s, a) is Some {
        let p1 = match_num_sep(s, a)->Some_0.1;
        lemma_match_num_sep_advances(s, p1);
        if match_num_sep(s, p1) is Some {
            let p2 = match_num_sep(s, p1)->Some_0.1;
            lemma_match_num_sep_advances(s, p2);
            if match_num_sep(s, p2) is Some {
                let p3 = match_num_sep(s, p2)->Some_0.1;
                lemma_match_flag_advances(s, p3);
                if match_flag(s, p3) is Some {
                    let p4 = match_flag(s, p3)->Some_0.1;
                    lemma_match_flag_advances(s, p4);
                    if match_flag(s, p4) is Some {
                        let p5 = match_flag(s, p4)->Some_0.1;
                        lemma_match_num_sep_advances(s, p5);
                        if match_num_sep(s, p5) is Some {
                            let p6 = match_num_sep(s, p5)->Some_0.1;
                            lemma_run_end(s, p6, |c: char| is_num_char(c));
                        }
                    }
                }
            }
        }
    }
}

/// The command sequence parsed from position `i` on: each recognized
/// command contributes one element, any other character is skipped.
pub open spec fn svg_parse_from(s: Seq<char>, i: int) -> Seq<SvgCommand>
    decreases s.len() - i when 0 <= i <= s.len() via svg_parse_decreases
{
    if i >= s.len() {
        Seq::<SvgCommand>::empty()
    } else if s[i] == 'M' && match_xy(s, i + 1) is Some {
        let (x, y, nx) = match_xy(s, i + 1)->Some_0;
        seq![cmd_move(x, y)] + svg_parse_from(s, nx)
    } else if s[i] == 'L' && match_xy(s, i + 1) is Some {
        let (x, y, nx) = match_xy(s, i + 1)->Some_0;
        seq![cmd_line(x, y)] + svg_parse_from(s, nx)
    } else if s[i] == 'A' && match_arc(s, i + 1) is Some {
        let (rx, ry, angle, la, sw, x, nx, y) = match_arc(s, i + 1)->Some_0;
        seq![cmd_arc(rx, ry, angle, la, sw, x, y)] + svg_parse_from(s, nx)
    } else if s[i] == 'Z' || s[i] == 'z' {
        seq![SvgCommand::ClosePath] + svg_parse_from(s, i + 1)
    } else {
        svg_parse_from(s, i + 1)
    }
}

#[via_fn]
proof fn svg_parse_decreases(s: Seq<char>, i: int) {
    if i < s.len() {
        lemma_match_xy_advances(s, i + 1);
        lemma_match_arc_advances(s, i + 1);
    }
}

fn is_ws_exec(c: char) -> (r: bool)
    ensures
        r == is_ws(c),
{
    c == ' ' || c == '\t' || c == '\n' || c == '\r'
}

fn is_sep_exec(c: char) -> (r: bool)
    ensures
        r == is_sep(c),
{
    c == ' ' || c == '\t' || c == '\n' || c == '\r' || c == ','
}

fn is_num_char_exec(c: char) -> (r: bool)
    ensures
        r == is_num_char(c),
{
    let u = c as u32;
    c == '-' || c == '.' || (48 <= u && u <= 57)
}

fn scan_ws(s: &str, i: usize) -> (r: usize)
    requires
        i <= s@.len(),
    ensures
        r == run_end(s@, i as int, |c: char| is_ws(c)),
        i <= r <= s@.len(),
{
    let n = s.unicode_len();
    let mut j = i;
    while j < n && is_ws_exec(s.get_char(j))
        invariant
            i <= j <= n,
            n == s@.len(),
            forall|k: int| i <= k < j ==> is_ws(#[trigger] s@[k]),
        decreases n - j,
    {
        j = j + 1;
    }
    proof {
        lemma_run_end_unique(s@, i as int, j as int, |c: char| is_ws(c));
    }
    j
}

fn scan_num(s: &str, i: usize) -> (r: usize)
    requires
        i <= s@.len(),
    ensures
        r == run_end(s@, i as int, |c: char| is_num_char(c)),
        i <= r <= s@.len(),
{
    let n = s.unicode_len();
    let mut j = i;
    while j < n && is_num_char_exec(s.get_char(j))
        invariant
            i <= j <= n,
            n == s@.len(),
            forall|k: int| i <= k < j ==> is_num_char(#[trigger] s@[k]),
        decreases n - j,
    {
        j = j + 1;
    }
    proof {
        lemma_run_end_unique(s@, i as int, j as int, |c: char| is_num_char(c));
    }
    j
}

fn scan_sep(s: &str, i: usize) -> (r: usize)
    requires
        i <= s@.len(),
    ensures
        r == run_end(s@, i as int, |c: char| is_sep(c)),
        i <= r <= s@.len(),
{
    let n = s.unicode_len();
    let mut j = i;
    while j < n && is_sep_exec(s.get_char(j))
        invariant
            i <= j <= n,
            n == s@.len(),
            forall|k: int| i <= k < j ==> is_sep(#[trigger] s@[k]),
        decreases n - j,
    {
        j = j + 1;
    }
    proof {
        lemma_run_end_unique(s@, i as int, j as int, |c: char| is_sep(c));
    }
    j
}

fn parse_token(s: &str, a: usize, b: usize) -> (r: Option<i64>)
    requires
        a <= b <= s@.len(),
    ensures
        match r {
            Some(v) => parse_fixed_spec(s@.subrange(a as int, b as int)) == Some(v as int)
                && fits_coord(v as int),
            None => parse_fixed_spec(s@.subrange(a as int, b as int)) is None,
        },
{
    let tok = s.substring_char(a, b);
    parse_fixed(tok)
}

fn try_xy(s: &str, i: usize) -> (r: Option<(i64, i64, usize)>)
    requires
        i <= s@.len(),
    ensures
        match r {
            Some(t) => match_xy(s@, i as int) == Some((t.0 as int, t.1 as int, t.2 as int))
                && i < t.2 <= s@.len(),
            None => match_xy(s@, i as int) is None,
        },
{
    let a = scan_ws(s, i);
    let a2 = scan_num(s, a);
    if a2 == a {
        return None;
    }
    let b = scan_sep(s, a2);
    if b == a2 {
        return None;
    }
    let b2 = scan_num(s, b);
    if b2 == b {
        return None;
    }
    let x = match parse_token(s, a, a2) {
        Some(v) => v,
        None => { return None; },
    };
    let y = match parse_token(s, b, b2) {
        Some(v) => v,
        None => { return None; },
    };
    Some((x, y, b2))
}

fn try_num_sep(s: &str, i: usize) -> (r: Option<(i64, usize)>)
    requires
        i <= s@.len(),
    ensures
        match r {
            Some(t) => match_num_sep(s@, i as int) == Some((t.0 as int, t.1 as int))
                && i < t.1 <= s@.len() && fits_coord(t.0 as int),
            None => match_num_sep(s@, i as int) is None,
        },
{
    let a2 = scan_num(s, i);
    if a2 == i {
        return None;
    }
    let b = scan_sep(s, a2);
    if b == a2 {
        return None;
    }
    let v = match parse_token(s, i, a2) {
        Some(v) => v,
        None => { return None; },
    };
    Some((v, b))
}

fn try_flag(s: &str, i: usize) -> (r: Option<(bool, usize)>)
    requires
        i <= s@.len(),
    ensures
        match r {
            Some(t) => match_flag(s@, i as int) == Some((t.0, t.1 as int)) && i < t.1 <= s@.len(),
            None => match_flag(s@, i as int) is None,
        },
{
    if i >= s.unicode_len() {
        return None;
    }
    let c = s.get_char(i);
    if c != '0' && c != '1' {
        return None;
    }
    let b = scan_sep(s, i + 1);
    if b == i + 1 {
        return None;
    }
    Some((c == '1', b))
}

fn try_arc(s: &str, i: usize) -> (r: Option<(SvgCommand, usize)>)
    requires
        i <= s@.len(),
    ensures
        match r {
            Some(t) => {
                &&& match_arc(s@, i as int) is Some
                &&& ({
                    let (rx, ry, angle, la, sw, x, nx, y) = match_arc(s@, i as int)->Some_0;
                    t.0 == cmd_arc(rx, ry, angle, la, sw, x, y) && t.1 == nx
                })
                &&& i < t.1 <= s@.len()
            },
            None => match_arc(s@, i as int) is None,
        },
{
    let a = scan_ws(s, i);
    let (rx, p1) = match try_num_sep(s, a) {
        Some(t) => t,
        None => { return None; },
    };
    let (ry, p2) = match try_num_sep(s, p1) {
        Some(t) => t,
        None => { return None; },
    };
    let (angle, p3) = match try_num_sep(s, p2) {
        Some(t) => t,
        None => { return None; },
    };
    let (large_arc, p4) = match try_flag(s, p3) {
        Some(t) => t,
        None => { return None; },
    };
    let (sweep, p5) = match try_flag(s, p4) {
        Some(t) => t,
        None => { return None; },
    };
    let (x, p6) = match try_num_sep(s, p5) {
        Some(t) => t,
        None => { return None; },
    };
    let e = scan_num(s, p6);
    if e == p6 {
        return None;
    }
    let y = match parse_token(s, p6, e) {
        Some(v) => v,
        None => { return None; },
    };
    Some((SvgCommand::Arc { rx, ry, angle, large_arc, sweep, x, y }, e))
}

/// Parse a restricted SVG path.  The result is exactly the command stream
/// of `svg_parse_from`; the parse fails precisely when that stream is
/// empty, as no valid command could be read.
pub fn parse_svg_path(path: &str) -> (r: Result<Vec<SvgCommand>, crate::errors::ConversionError>)
    ensures
        match r {
            Ok(cmds) => cmds@ == svg_parse_from(path@, 0) && cmds@.len() > 0
                && svg_cmds_fit(cmds@),
            Err(_) => svg_parse_from(path@, 0).len() == 0,
        },
{
    let n = path.unicode_len();
    let mut out: Vec<SvgCommand> = Vec::new();
    let mut i: usize = 0;
    while i < n
        invariant
            0 <= i <= n,
            n == path@.len(),
            out@ + svg_parse_from(path@, i as int) == svg_parse_from(path@, 0),
        decreases n - i,
    {
        let ghost prev = i as int;
        let ghost out_old = out@;
        let c = path.get_char(i);
        if c == 'M' {
            match try_xy(path, i + 1) {
                Some((x, y, nx)) => {
                    out.push(SvgCommand::MoveTo { x, y });
                    proof {
                        assert(svg_parse_from(path@, prev)
                            == seq![cmd_move(x as int, y as int)] + svg_parse_from(path@, nx as int));
                        assert(out@ + svg_parse_from(path@, nx as int)
                            =~= out_old + svg_parse_from(path@, prev));
                    }
                    i = nx;
                },
                None => {
                    i = i + 1;
                },
            }
        } else if c == 'L' {
            match try_xy(path, i + 1) {
                Some((x, y, nx)) => {
                    out.push(SvgCommand::LineTo { x, y });
                    proof {
                        assert(svg_parse_from(path@, prev)
                            == seq![cmd_line(x as int, y as int)] + svg_parse_from(path@, nx as int));
                        assert(out@ + svg_parse_from(path@, nx as int)
                            =~= out_old + svg_parse_from(path@, prev));
                    }
                    i = nx;
                },
                None => {
                    i = i + 1;
                },
            }
        } else if c == 'A' {
            match try_arc(path, i + 1) {
                Some((cmd, nx)) => {
                    out.push(cmd);
                    proof {
                        let (rx, ry, angle, la, sw, x, nxs, y) = match_arc(path@, prev + 1)->Some_0;
                        assert(svg_parse_from(path@, prev)
                            == seq![cmd_arc(rx, ry, angle, la, sw, x, y)]
                                + svg_parse_from(path@, nxs));
                        assert(out@ + svg_parse_from(path@, nx as int)
                            =~= out_old + svg_parse_from(path@, prev));
                    }
                    i = nx;
                },
                None => {
                    i = i + 1;
                },
            }
        } else if c == 'Z' || c == 'z' {
            out.push(SvgCommand::ClosePath);
            proof {
                assert(svg_parse_from(path@, prev)
                    == seq![SvgCommand::ClosePath] + svg_parse_from(path@, prev + 1));
                assert(out@ + svg_parse_from(path@, prev + 1)
                    =~= out_old + svg_parse_from(path@, prev));
            }
            i = i + 1;
        } else {
            i = i + 1;
        }
    }
    proof {
        assert(out@ + svg_parse_from(path@, n as int) =~= out@);
        lemma_svg_parse_fits(path@, 0);
    }
    if out.len() == 0 {
        let mut m = String::new();
        m.append("no valid commands in path");
        Err(crate::errors::ConversionError::SvgParse(m))
    } else {
        Ok(out)
    }
}


/// Every coordinate inside a command is a parsed decimal, hence bounded.
pub open spec fn svg_cmd_fits(c: SvgCommand) -> bool {
    match c {
        SvgCommand::MoveTo { x, y } => fits_coord(x as int) && fits_coord(y as int),
        SvgCommand::LineTo { x, y } => fits_coord(x as int) && fits_coord(y as int),
        SvgCommand::Arc { rx, ry, angle, x, y, .. } => fits_coord(rx as int)
            && fits_coord(ry as int) && fits_coord(angle as int)
            && fits_coord(x as int) && fits_coord(y as int),
        SvgCommand::ClosePath => true,
    }
}

pub open spec fn svg_cmds_fit(cmds: Seq<SvgCommand>) -> bool {
    forall|i: int| 0 <= i < cmds.len() ==> svg_cmd_fits(#[trigger] cmds[i])
}

/// Every command of a parse carries bounded coordinates.
pub proof fn lemma_svg_parse_fits(s: Seq<char>, i: int)
    requires
        0 <= i <= s.len(),
    ensures
        svg_cmds_fit(svg_parse_from(s, i)),
    decreases s.len() - i,
{
    if i < s.len() {
        lemma_match_xy_advances(s, i + 1);
        lemma_match_arc_advances(s, i + 1);
        if s[i] == 'M' && match_xy(s, i + 1) is Some {
            let (x, y, nx) = match_xy(s, i + 1)->Some_0;
            lemma_match_xy_fits(s, i + 1);
            lemma_svg_parse_fits(s, nx);
            assert(svg_cmd_fits(cmd_move(x, y)));
            lemma_fit_cons(cmd_move(x, y), svg_parse_from(s, nx));
        } else if s[i] == 'L' && match_xy(s, i + 1) is Some {
            let (x, y, nx) = match_xy(s, i + 1)->Some_0;
            lemma_match_xy_fits(s, i + 1);
            lemma_svg_parse_fits(s, nx);
            lemma_fit_cons(cmd_line(x, y), svg_parse_from(s, nx));
        } else if s[i] == 'A' && match_arc(s, i + 1) is Some {
            let (rx, ry, angle, la, sw, x, nx, y) = match_arc(s, i + 1)->Some_0;
            lemma_match_arc_fits(s, i + 1);
            lemma_svg_parse_fits(s, nx);
            lemma_fit_cons(cmd_arc(rx, ry, angle, la, sw, x, y), svg_parse_from(s, nx));
        } else if s[i] == 'Z' || s[i] == 'z' {
            lemma_svg_parse_fits(s, i + 1);
            lemma_fit_cons(SvgCommand::ClosePath, svg_parse_from(s, i + 1));
        } else {
            lemma_svg_parse_fits(s, i + 1);
        }
    }
}

proof fn lemma_fit_cons(c: SvgCommand, rest: Seq<SvgCommand>)
    requires
        svg_cmd_fits(c),
        svg_cmds_fit(rest),
    ensures
        svg_cmds_fit(seq![c] + rest),
{
    let all = seq![c] + rest;
    assert forall|i: int| 0 <= i < all.len() implies svg_cmd_fits(#[trigger] all[i]) by {
        if i > 0 {
            assert(all[i] == rest[i - 1]);
        }
    }
}

proof fn lemma_match_xy_fits(s: Seq<char>, i: int)
    requires
        0 <= i <= s.len(),
        match_xy(s, i) is Some,
    ensures
        ({
            let (x, y, nx) = match_xy(s, i)->Some_0;
            fits_coord(x) && fits_coord(y)
        }),
{
    let a = run_end(s, i, |c: char| is_ws(c));
    let a2 = run_end(s, a, |c: char| is_num_char(c));
    let b = run_end(s, a2, |c: char| is_sep(c));
    let b2 = run_end(s, b, |c: char| is_num_char(c));
    crate::num::lemma_parse_fixed_fits(s.subrange(a, a2));
    crate::num::lemma_parse_fixed_fits(s.subrange(b, b2));
}

proof fn lemma_match_num_sep_fits(s: Seq<char>, i: int)
    requires
        0 <= i <= s.len(),
        match_num_sep(s, i) is Some,
    ensures
        fits_coord(match_num_sep(s, i)->Some_0.0),
{
    let a2 = run_end(s, i, |c: char| is_num_char(c));
    crate::num::lemma_parse_fixed_fits(s.subrange(i, a2));
}

proof fn lemma_match_arc_fits(s: Seq<char>, i: int)
    requires
        0 <= i <= s.len(),
        match_arc(s, i) is Some,
    ensures
        ({
            let (rx, ry, angle, la, sw, x, nx, y) = match_arc(s, i)->Some_0;
            fits_coord(rx) && fits_coord(ry) && fits_coord(angle) && fits_coord(x)
                && fits_coord(y)
        }),
{
    lemma_run_end(s, i, |c: char| is_ws(c));
    let a = run_end(s, i, |c: char| is_ws(c));
    lemma_match_num_sep_fits(s, a);
    lemma_match_num_sep_advances(s, a);
    let p1 = match_num_sep(s, a)->Some_0.1;
    lemma_match_num_sep_fits(s, p1);
    lemma_match_num_sep_advances(s, p1);
    let p2 = match_num_sep(s, p1)->Some_0.1;
    lemma_match_num_sep_fits(s, p2);
    lemma_match_num_sep_advances(s, p2);
    let p3 = match_num_sep(s, p2)->Some_0.1;
    lemma_match_flag_advances(s, p3);
    let p4 = match_flag(s, p3)->Some_0.1;
    lemma_match_flag_advances(s, p4);
    let p5 = match_flag(s, p4)->Some_0.1;
    lemma_match_num_sep_fits(s, p5);
    lemma_match_num_sep_advances(s, p5);
    let p6 = match_num_sep(s, p5)->Some_0.1;
    lemma_run_end(s, p6, |c: char| is_num_char(c));
    let e = run_end(s, p6, |c: char| is_num_char(c));
    crate::num::lemma_parse_fixed_fits(s.subrange(p6, e));
}

} // verus!
