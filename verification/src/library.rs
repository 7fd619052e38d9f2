//! The symbol-library mutator: add or update one named component inside a
//! multi-component library file.
//!
//! The functions here are pure text transforms; reading and writing the
//! file, and the mutual exclusion across concurrent jobs, sit with the
//! caller, which must hold its lock around the whole decide-and-write.
//! Blocks are located by their quoted name token, not by a pattern
//! engine: a v6 block starts at a line `  (symbol "<name>"` and ends at
//! the first following line `  )`; a v5 block runs from `DEF <name> ` to
//! `ENDDEF`.

use vstd::prelude::*;
use vstd::string::*;
use crate::importer::{matches_at, contains_seq, str_contains, rtrim_end};
use crate::svg::is_ws;
use crate::errors::KicadError;

verus! {

/// First occurrence of `needle` at or after `i`, or -1.
pub open spec fn find_from(hay: Seq<char>, needle: Seq<char>, i: int) -> int
    decreases hay.len() - i when 0 <= i <= hay.len() via find_from_decreases
{
    if i + needle.len() > hay.len() {
        -1
    } else if matches_at(hay, needle, i) {
        i
    } else {
        find_from(hay, needle, i + 1)
    }
}

#[via_fn]
proof fn find_from_decreases(hay: Seq<char>, needle: Seq<char>, i: int) {
    if 0 <= i <= hay.len() && i + needle.len() <= hay.len() && !matches_at(hay, needle, i) {
        if needle.len() == 0 {
            assert(hay.subrange(i, i) =~= needle);
        }
    }
}

pub proof fn lemma_find_from(hay: Seq<char>, needle: Seq<char>, i: int)
    requires
        0 <= i <= hay.len(),
    ensures
        find_from(hay, needle, i) == -1 || find_from(hay, needle, i) >= i,
        find_from(hay, needle, i) == -1 ==> forall|k: int| i <= k ==> !matches_at(hay, needle, k),
        find_from(hay, needle, i) >= 0 ==> i <= find_from(hay, needle, i)
            && matches_at(hay, needle, find_from(hay, needle, i))
            && forall|k: int| i <= k < find_from(hay, needle, i) ==> !matches_at(hay, needle, k),
    decreases hay.len() - i,
{
    if i + needle.len() > hay.len() {
        assert forall|k: int| i <= k implies !matches_at(hay, needle, k) by {}
    } else if !matches_at(hay, needle, i) {
        if needle.len() == 0 {
            assert(hay.subrange(i, i) =~= needle);
        }
        lemma_find_from(hay, needle, i + 1);
    }
}

/// Search for `needle` at or after `i`.
pub fn find_substring_from(hay: &str, needle: &str, i: usize) -> (r: Option<usize>)
    requires
        i <= hay@.len(),
    ensures
        match r {
            Some(p) => find_from(hay@, needle@, i as int) == p as int
                && matches_at(hay@, needle@, p as int),
            None => find_from(hay@, needle@, i as int) == -1,
        },
{
    let nh = hay.unicode_len();
    let nn = needle.unicode_len();
    if nn > nh || i > nh - nn {
        proof {
            lemma_find_none(hay@, needle@, i as int);
        }
        return None;
    }
    if nn == 0 {
        proof {
            assert(hay@.subrange(i as int, i as int) =~= needle@);
            assert(matches_at(hay@, needle@, i as int));
        }
        return Some(i);
    }
    let mut j = i;
    while j <= nh - nn
        invariant
            i <= j <= nh - nn + 1,
            1 <= nn <= nh,
            nh == hay@.len(),
            nn == needle@.len(),
            find_from(hay@, needle@, i as int) == find_from(hay@, needle@, j as int),
        decreases nh - nn - j + 1,
    {
        if match_here_pub(hay, needle, j) {
            return Some(j);
        }
        proof {
            assert(find_from(hay@, needle@, j as int) == find_from(hay@, needle@, j + 1));
        }
        j = j + 1;
    }
    proof {
        lemma_find_none(hay@, needle@, j as int);
    }
    None
}

proof fn lemma_find_none(hay: Seq<char>, needle: Seq<char>, i: int)
    requires
        0 <= i <= hay.len(),
        i + needle.len() > hay.len(),
    ensures
        find_from(hay, needle, i) == -1,
{
}

fn match_here_pub(hay: &str, needle: &str, i: usize) -> (r: bool)
    requires
        i + needle@.len() <= hay@.len(),
    ensures
        r == matches_at(hay@, needle@, i as int),
{
    let nn = needle.unicode_len();
    let nh = hay.unicode_len();
    let mut j: usize = 0;
    while j < nn
        invariant
            0 <= j <= nn,
            nn == needle@.len(),
            nh == hay@.len(),
            i + nn <= hay@.len(),
            forall|k: int| 0 <= k < j ==> hay@[i + k] == needle@[k],
        decreases nn - j,
    {
        if hay.get_char(i + j) != needle.get_char(j) {
            proof {
                assert(!matches_at(hay@, needle@, i as int)) by {
                    if matches_at(hay@, needle@, i as int) {
                        assert(hay@.subrange(i as int, i + nn)[j as int] == needle@[j as int]);
                    }
                }
            }
            return false;
        }
        j = j + 1;
    }
    proof {
        assert(hay@.subrange(i as int, i + nn) =~= needle@);
    }
    true
}

/// The v6 marker of a named component block.
pub open spec fn v6_marker(name: Seq<char>) -> Seq<char> {
    "(symbol \""@ + name + "\""@
}

/// The v5 marker of a named component block.
pub open spec fn v5_marker(name: Seq<char>) -> Seq<char> {
    "DEF "@ + name + " "@
}

/// Whether a library text already holds the named component, in either
/// dialect.
pub open spec fn has_component(content: Seq<char>, name: Seq<char>) -> bool {
    contains_seq(content, v6_marker(name)) || contains_seq(content, v5_marker(name))
}

fn build_v6_marker(name: &str) -> (r: String)
    ensures
        r@ == v6_marker(name@),
{
    let mut m = String::new();
    m.append("(symbol \"");
    m.append(name);
    m.append("\"");
    proof {
        assert(m@ =~= v6_marker(name@));
    }
    m
}

fn build_v5_marker(name: &str) -> (r: String)
    ensures
        r@ == v5_marker(name@),
{
    let mut m = String::new();
    m.append("DEF ");
    m.append(name);
    m.append(" ");
    proof {
        assert(m@ =~= v5_marker(name@));
    }
    m
}

/// Trailing blanks, then trailing `)` characters removed: what remains of
/// an existing library before a new block is appended.
pub open spec fn rstrip_parens(s: Seq<char>) -> int
    decreases s.len(),
{
    if s.len() > 0 && s.last() == ')' {
        rstrip_parens(s.drop_last())
    } else {
        s.len() as int
    }
}

/// The v6 library header.
pub open spec fn v6_lib_header() -> Seq<char> {
    "(kicad_symbol_lib\n  (version 20211014)\n  (generator nlbn)"@
}

/// The v5 library header.
pub open spec fn v5_lib_header() -> Seq<char> {
    "EESchema-LIBRARY Version 2.4\n#encoding utf-8"@
}

/// What appending a block to a library yields: the base is the existing
/// text with trailing blanks and closers stripped, or a fresh header; the
/// block follows on a new line; a v6 library is closed again.
pub open spec fn appended_library(existing: Option<Seq<char>>, data: Seq<char>) -> Seq<char> {
    let is_v6 = contains_seq(data, "(symbol"@);
    let base = match existing {
        Some(old) => {
            let a = rtrim_end(old);
            old.take(rstrip_parens(old.take(a)))
        },
        None => if is_v6 { v6_lib_header() } else { v5_lib_header() },
    };
    base + "\n"@ + data + (if is_v6 { "\n)"@ } else { Seq::<char>::empty() }) + "\n"@
}

/// Append a component block: exactly `appended_library`.
pub fn add_component(existing: Option<&String>, component_data: &str) -> (r: String)
    ensures
        r@ == appended_library(
            match existing {
                Some(e) => Some(e@),
                None => None,
            },
            component_data@),
{
    let is_v6 = str_contains(component_data, "(symbol");
    let mut content: String = match existing {
        Some(old) => strip_tail(old.as_str()),
        None => {
            if is_v6 {
                let mut h = String::new();
                h.append("(kicad_symbol_lib\n  (version 20211014)\n  (generator nlbn)");
                h
            } else {
                let mut h = String::new();
                h.append("EESchema-LIBRARY Version 2.4\n#encoding utf-8");
                h
            }
        },
    };
    content.append("\n");
    content.append(component_data);
    if is_v6 {
        content.append("\n)");
    }
    content.append("\n");
    proof {
        assert(content@ =~= appended_library(
            match existing {
                Some(e) => Some(e@),
                None => None,
            },
            component_data@));
    }
    content
}

fn strip_tail(s: &str) -> (r: String)
    ensures
        r@ == s@.take(rstrip_parens(s@.take(rtrim_end(s@)))),
{
    let n = s.unicode_len();
    let mut b: usize = n;
    proof {
        assert(s@.take(n as int) =~= s@);
    }
    while b > 0 && is_blank_lib(s.get_char(b - 1))
        invariant
            0 <= b <= n,
            n == s@.len(),
            rtrim_end(s@) == rtrim_end(s@.take(b as int)),
        decreases b,
    {
        proof {
            assert(s@.take(b as int).last() == s@[b - 1]);
            assert(s@.take(b as int).drop_last() =~= s@.take(b - 1));
        }
        b = b - 1;
    }
    proof {
        if b > 0 {
            assert(s@.take(b as int).last() == s@[b - 1]);
        }
        assert(rtrim_end(s@.take(b as int)) == b);
    }
    let ghost trimmed = s@.take(b as int);
    let mut c: usize = b;
    proof {
        assert(trimmed.take(b as int) =~= trimmed);
    }
    while c > 0 && s.get_char(c - 1) == ')'
        invariant
            0 <= c <= b <= n,
            n == s@.len(),
            trimmed == s@.take(b as int),
            rstrip_parens(trimmed) == rstrip_parens(trimmed.take(c as int)),
        decreases c,
    {
        proof {
            assert(trimmed.take(c as int).last() == s@[c - 1]);
            assert(trimmed.take(c as int).drop_last() =~= trimmed.take(c - 1));
        }
        c = c - 1;
    }
    proof {
        if c > 0 {
            assert(trimmed.take(c as int).last() == s@[c - 1]);
        }
        assert(rstrip_parens(trimmed.take(c as int)) == c);
        assert(s@.take(c as int) =~= trimmed.take(c as int));
    }
    let r = s.substring_char(0, c).to_owned();
    proof {
        assert(r@ =~= s@.take(rstrip_parens(s@.take(rtrim_end(s@)))));
    }
    r
}

fn is_blank_lib(c: char) -> (r: bool)
    ensures
        r == is_ws(c),
{
    c == ' ' || c == '\t' || c == '\n' || c == '\r'
}

/// What replacing the named v6 block yields, when the block marker stands
/// at `m` and its closer at `e`: the line holding the marker, through the
/// closing line `  )`, is replaced by `data`.  The block is taken to begin
/// two columns before the marker, at the start of its line.
pub open spec fn replaced_v6(content: Seq<char>, data: Seq<char>, m: int, e: int) -> Seq<char> {
    content.take(m - 2) + data + content.skip(e + 5)
}

/// What replacing the named v5 block yields, when the marker stands at
/// `m` and `ENDDEF\n` ends at `e + 7`.
pub open spec fn replaced_v5(content: Seq<char>, data: Seq<char>, m: int, e: int) -> Seq<char> {
    content.take(m) + data + content.skip(e + 7)
}

/// The successful outcome of a block replacement: the v6 block from the
/// start of its marker line to the first following `\n  )\n`, or the v5
/// block from `DEF <name> ` to `ENDDEF\n`, replaced by `data`.
pub open spec fn updated_ok(content: Seq<char>, name: Seq<char>, data: Seq<char>,
    out: Seq<char>) -> bool {
    let m6 = find_from(content, v6_marker(name), 0);
    let m5 = find_from(content, v5_marker(name), 0);
    if m6 >= 2 {
        let e = find_from(content, "\n  )\n"@, m6);
        e >= 0 && out == replaced_v6(content, data, m6, e)
    } else {
        m5 >= 0 && {
            let e = find_from(content, "ENDDEF\n"@, m5);
            e >= 0 && out == replaced_v5(content, data, m5, e)
        }
    }
}

/// Whether the named block can be replaced in this text: a v6 marker on
/// its own line with a closing line after it, or, with no v6 marker at
/// all, a v5 marker with an `ENDDEF` line after it.
pub open spec fn update_possible(content: Seq<char>, name: Seq<char>) -> bool {
    let m6 = find_from(content, v6_marker(name), 0);
    if m6 >= 0 {
        m6 >= 2 && find_from(content, "\n  )\n"@, m6) >= 0
    } else {
        let m5 = find_from(content, v5_marker(name), 0);
        m5 >= 0 && find_from(content, "ENDDEF\n"@, m5) >= 0
    }
}

/// Replace the named component block.  For a v6 library the block from
/// the start of the marker line to the first following `\n  )\n` is
/// replaced; for v5 the block from `DEF <name> ` to `ENDDEF\n`.  Fails
/// exactly when no such block with its closer is present.
pub fn update_component_content(content: &str, component_name: &str, new_data: &str)
    -> (r: Result<String, KicadError>)
    ensures
        match r {
            Ok(out) => updated_ok(content@, component_name@, new_data@, out@)
                && update_possible(content@, component_name@),
            Err(_) => !update_possible(content@, component_name@),
        },
{
    let n = content.unicode_len();
    let marker6 = build_v6_marker(component_name);
    match find_substring_from(content, marker6.as_str(), 0) {
        Some(m) => {
            if m >= 2 {
                match find_substring_from(content, "\n  )\n", m) {
                    Some(e) => {
                        proof {
                            reveal_strlit("\n  )\n");
                        }
                        let prefix = content.substring_char(0, m - 2);
                        let suffix = content.substring_char(e + 5, n);
                        let mut out = String::new();
                        out.append(prefix);
                        out.append(new_data);
                        out.append(suffix);
                        proof {
                            assert(out@ =~= replaced_v6(content@, new_data@,
                                m as int, e as int));
                        }
                        return Ok(out);
                    },
                    None => {
                        let mut msg = String::new();
                        msg.append("component block has no closer");
                        return Err(KicadError::SymbolExport(msg));
                    },
                }
            }
            let mut msg = String::new();
            msg.append("component block not found in library");
            Err(KicadError::SymbolExport(msg))
        },
        None => {
            let marker5 = build_v5_marker(component_name);
            match find_substring_from(content, marker5.as_str(), 0) {
                Some(m) => {
                    match find_substring_from(content, "ENDDEF\n", m) {
                        Some(e) => {
                            proof {
                                reveal_strlit("ENDDEF\n");
                            }
                            let prefix = content.substring_char(0, m);
                            let suffix = content.substring_char(e + 7, n);
                            let mut out = String::new();
                            out.append(prefix);
                            out.append(new_data);
                            out.append(suffix);
                            proof {
                                assert(out@ =~= replaced_v5(content@, new_data@,
                                    m as int, e as int));
                            }
                            return Ok(out);
                        },
                        None => {
                            let mut msg = String::new();
                            msg.append("component block has no closer");
                            Err(KicadError::SymbolExport(msg))
                        },
                    }
                },
                None => {
                    let mut msg = String::new();
                    msg.append("component block not found in library");
                    Err(KicadError::SymbolExport(msg))
                },
            }
        },
    }
}

/// The decide-and-write step of add-or-update, as a pure transform.  The
/// caller reads the file (None when absent), runs this under its lock, and
/// writes back the returned text when one is returned.  The component
/// exists when either dialect's marker is present; `written` is false
/// exactly when it exists and overwriting is off, and then nothing is
/// returned to write, so the skip leaves the file untouched.
pub fn add_or_update_component(existing: Option<&String>, component_name: &str,
    component_data: &str, overwrite: bool) -> (r: (Option<String>, bool))
    ensures
        ({
            let exists = match existing {
                Some(e) => has_component(e@, component_name@),
                None => false,
            };
            &&& r.1 == ((!exists) || overwrite)
            &&& !exists ==> r.0 is Some && r.0->Some_0@ == appended_library(
                match existing {
                    Some(e) => Some(e@),
                    None => None,
                },
                component_data@)
            &&& (exists && !overwrite) ==> r.0 is None
            &&& (exists && overwrite) ==> (match r.0 {
                Some(out) => updated_ok(
                    (match existing { Some(e) => e@, None => Seq::<char>::empty() }),
                    component_name@, component_data@, out@),
                None => true,
            })
        }),
{
    let exists = match existing {
        Some(e) => {
            let marker6 = build_v6_marker(component_name);
            if str_contains(e.as_str(), marker6.as_str()) {
                true
            } else {
                let marker5 = build_v5_marker(component_name);
                str_contains(e.as_str(), marker5.as_str())
            }
        },
        None => false,
    };
    if exists && overwrite {
        match existing {
            Some(e) => {
                match update_component_content(e.as_str(), component_name, component_data) {
                    Ok(out) => (Some(out), true),
                    Err(_) => (None, true),
                }
            },
            None => (None, true),
        }
    } else if !exists {
        (Some(add_component(existing, component_data)), true)
    } else {
        (None, false)
    }
}


/// Paths of the artifacts under one output directory.
pub struct LibraryManager {
    pub output_path: String,
}

impl LibraryManager {
    pub fn new(output_path: &str) -> (r: LibraryManager)
        ensures
            r.output_path@ == output_path@,
    {
        LibraryManager { output_path: output_path.to_owned() }
    }

    /// The output directory this manager writes under.
    pub fn get_output_path(&self) -> (r: &str)
        ensures
            r@ == self.output_path@,
    {
        self.output_path.as_str()
    }

    /// The symbol library file: `nlbn.lib` for v5, `nlbn.kicad_sym` for v6.
    pub fn get_symbol_lib_path(&self, v5: bool) -> (r: String)
        ensures
            r@ == self.output_path@
                + (if v5 { "/nlbn.lib"@ } else { "/nlbn.kicad_sym"@ }),
    {
        let mut p = String::new();
        p.append(self.output_path.as_str());
        if v5 {
            p.append("/nlbn.lib");
        } else {
            p.append("/nlbn.kicad_sym");
        }
        proof {
            assert(p@ =~= self.output_path@
                + (if v5 { "/nlbn.lib"@ } else { "/nlbn.kicad_sym"@ }));
        }
        p
    }

    /// The footprint directory.
    pub fn pretty_dir_path(&self) -> (r: String)
        ensures
            r@ == self.output_path@ + "/nlbn.pretty"@,
    {
        let mut p = String::new();
        p.append(self.output_path.as_str());
        p.append("/nlbn.pretty");
        proof {
            assert(p@ =~= self.output_path@ + "/nlbn.pretty"@);
        }
        p
    }

    /// The 3D-model directory.
    pub fn shapes_dir_path(&self) -> (r: String)
        ensures
            r@ == self.output_path@ + "/nlbn.3dshapes"@,
    {
        let mut p = String::new();
        p.append(self.output_path.as_str());
        p.append("/nlbn.3dshapes");
        proof {
            assert(p@ =~= self.output_path@ + "/nlbn.3dshapes"@);
        }
        p
    }

    /// The footprint module file of a component.
    pub fn footprint_file_path(&self, footprint_name: &str) -> (r: String)
        ensures
            r@ == self.output_path@ + "/nlbn.pretty/"@ + footprint_name@ + ".kicad_mod"@,
    {
        let mut p = String::new();
        p.append(self.output_path.as_str());
        p.append("/nlbn.pretty/");
        p.append(footprint_name);
        p.append(".kicad_mod");
        proof {
            assert(p@ =~= self.output_path@ + "/nlbn.pretty/"@ + footprint_name@
                + ".kicad_mod"@);
        }
        p
    }

    /// The VRML model file of a component.
    pub fn wrl_file_path(&self, model_name: &str) -> (r: String)
        ensures
            r@ == self.output_path@ + "/nlbn.3dshapes/"@ + model_name@ + ".wrl"@,
    {
        let mut p = String::new();
        p.append(self.output_path.as_str());
        p.append("/nlbn.3dshapes/");
        p.append(model_name);
        p.append(".wrl");
        proof {
            assert(p@ =~= self.output_path@ + "/nlbn.3dshapes/"@ + model_name@ + ".wrl"@);
        }
        p
    }

    /// The STEP model file of a component.
    pub fn step_file_path(&self, model_name: &str) -> (r: String)
        ensures
            r@ == self.output_path@ + "/nlbn.3dshapes/"@ + model_name@ + ".step"@,
    {
        let mut p = String::new();
        p.append(self.output_path.as_str());
        p.append("/nlbn.3dshapes/");
        p.append(model_name);
        p.append(".step");
        proof {
            assert(p@ =~= self.output_path@ + "/nlbn.3dshapes/"@ + model_name@ + ".step"@);
        }
        p
    }

    /// Whether a library text already holds the named component, in either
    /// dialect.
    pub fn component_exists(&self, content: &str, component_name: &str) -> (r: bool)
        ensures
            r == has_component(content@, component_name@),
    {
        let marker6 = build_v6_marker(component_name);
        if str_contains(content, marker6.as_str()) {
            return true;
        }
        let marker5 = build_v5_marker(component_name);
        str_contains(content, marker5.as_str())
    }
}


/// Replacing a block by the very text the file already holds there leaves
/// the library byte-equal: running the emitter twice on one component with
/// overwriting on rewrites the same block in place.
pub proof fn lemma_update_in_place_is_identity(content: Seq<char>, name: Seq<char>,
    data: Seq<char>)
    requires
        find_from(content, v6_marker(name), 0) >= 2,
        ({
            let m = find_from(content, v6_marker(name), 0);
            let e = find_from(content, "\n  )\n"@, m);
            &&& e >= 0
            &&& matches_at(content, "\n  )\n"@, e)
            &&& content.subrange(m - 2, e + 5) == data
        }),
    ensures
        ({
            let m = find_from(content, v6_marker(name), 0);
            let e = find_from(content, "\n  )\n"@, m);
            replaced_v6(content, data, m, e) == content
        }),
{
    let m = find_from(content, v6_marker(name), 0);
    reveal_strlit("\n  )\n");
    lemma_find_from(content, v6_marker(name), 0);
    assert(m + v6_marker(name).len() <= content.len());
    let e = find_from(content, "\n  )\n"@, m);
    lemma_find_from(content, "\n  )\n"@, m);
    assert(e + 5 <= content.len());
    assert(replaced_v6(content, data, m, e) =~= content);
}

/// An occurrence of a marker inside a prefix survives any extension of the
/// text: what a library already holds is still there after a new block is
/// appended behind it.
pub proof fn lemma_prefix_occurrence_survives(a: Seq<char>, b: Seq<char>, needle: Seq<char>,
    k: int)
    requires
        matches_at(a, needle, k),
    ensures
        matches_at(a + b, needle, k),
        contains_seq(a + b, needle),
{
    assert((a + b).subrange(k, k + needle.len()) =~= a.subrange(k, k + needle.len()));
}

/// A freshly appended library holds the new block: the block's own marker
/// occurs in `appended_library` wherever it occurs in the block.
pub proof fn lemma_appended_library_has_block(existing: Option<Seq<char>>, data: Seq<char>,
    needle: Seq<char>, k: int)
    requires
        matches_at(data, needle, k),
    ensures
        contains_seq(appended_library(existing, data), needle),
{
    let is_v6 = contains_seq(data, "(symbol"@);
    let base = match existing {
        Some(old) => {
            let a = rtrim_end(old);
            old.take(rstrip_parens(old.take(a)))
        },
        None => if is_v6 { v6_lib_header() } else { v5_lib_header() },
    };
    let whole = appended_library(existing, data);
    reveal_strlit("\n");
    reveal_strlit("\n)");
    reveal_strlit("(symbol");
    let off = base.len() + 1;
    assert(whole =~= base + "\n"@ + data
        + (if is_v6 { "\n)"@ } else { Seq::<char>::empty() }) + "\n"@);
    assert forall|j: int| 0 <= j < needle.len() implies
        #[trigger] whole.subrange(off + k, off + k + needle.len())[j]
            == data.subrange(k, k + needle.len())[j] by {
        assert(whole[off + k + j] == data[k + j]);
    }
    assert(whole.subrange(off + k, off + k + needle.len())
        =~= data.subrange(k, k + needle.len()));
    assert(matches_at(whole, needle, off + k));
}


/// The shape of an emitted v6 component block: two columns of indent, the
/// quoted-name marker, a body free of stray markers and closing lines, and
/// the closing line at the very end.  The name itself holds no line feed.
pub open spec fn v6_block_wf(data: Seq<char>, name: Seq<char>) -> bool {
    &&& data.len() >= 7 + name.len() + 5
    &&& data[0] == ' ' && data[1] == ' '
    &&& matches_at(data, v6_marker(name), 2)
    &&& matches_at(data, "\n  )\n"@, data.len() - 5)
    &&& forall|k: int| matches_at(data, v6_marker(name), k) ==> k == 2
    &&& forall|k: int| matches_at(data, "\n  )\n"@, k) ==> k == data.len() - 5
    &&& forall|k: int| 0 <= k < name.len() ==> name[k] != '\n'
}

/// Repeating an overwrite on a fresh library is the identity: the library
/// built by appending a well-formed block to no file locates that block's
/// marker and closer exactly where they were put, so replacing the block
/// by the same text gives the same library byte for byte.
pub proof fn lemma_fresh_overwrite_identity(name: Seq<char>, data: Seq<char>)
    requires
        v6_block_wf(data, name),
        contains_seq(data, "(symbol"@),
    ensures
        ({
            let c1 = appended_library(None, data);
            let m = find_from(c1, v6_marker(name), 0);
            let e = find_from(c1, "\n  )\n"@, m);
            &&& has_component(c1, name)
            &&& m >= 2
            &&& e >= 0
            &&& replaced_v6(c1, data, m, e) == c1
        }),
{
    reveal_strlit("(kicad_symbol_lib\n  (version 20211014)\n  (generator nlbn)");
    reveal_strlit("\n");
    reveal_strlit("\n)");
    reveal_strlit("\n  )\n");
    reveal_strlit("(symbol \"");
    reveal_strlit("\"");
    let h = v6_lib_header();
    let c1 = appended_library(None, data);
    let hl = h.len() as int;
    let dl = data.len() as int;
    let marker = v6_marker(name);
    assert(c1 =~= h + "\n"@ + data + "\n)"@ + "\n"@);
    assert(c1.len() == hl + 1 + dl + 3);
    // the marker put at hl + 3 is there
    assert(matches_at(c1, marker, hl + 3)) by {
        assert(c1.subrange(hl + 3, hl + 3 + marker.len() as int)
            =~= data.subrange(2, 2 + marker.len() as int));
    }
    assert(has_component(c1, name));
    // the marker holds no line feed
    assert(marker.len() == 9 + name.len() + 1);
    assert(forall|j: int| 0 <= j < marker.len() ==> #[trigger] marker[j] != '\n') by {
        assert(forall|j: int| 0 <= j < 9 ==> #[trigger] "(symbol \""@[j] != '\n');
        assert(forall|j: int| 0 <= j < marker.len() ==> #[trigger] marker[j]
            == (if j < 9 { "(symbol \""@[j] }
                else if j < 9 + name.len() { name[j - 9] } else { '\"' }));
    }
    // and it occurs nowhere before its insertion point
    assert forall|k: int| 0 <= k < hl + 3 implies !matches_at(c1, marker, k) by {
        if matches_at(c1, marker, k) {
            if k + marker.len() as int <= hl {
                // entirely inside the header: no '(' there is followed by 's'
                assert(c1[k] == h[k]);
                assert(c1[k + 1] == h[k + 1]);
                assert(c1.subrange(k, k + marker.len() as int)[0] == marker[0]);
                assert(c1.subrange(k, k + marker.len() as int)[1] == marker[1]);
                assert(h[k] == '(' && h[k + 1] == 's');
            } else if k <= hl {
                // spans the line feed after the header
                assert(c1[hl] == '\n');
                assert(c1.subrange(k, k + marker.len() as int)[hl - k] == marker[hl - k]);
            } else {
                // inside the block before the marker: an occurrence there is
                // an occurrence in the block before offset 2
                let j = k - (hl + 1);
                assert(0 <= j < 2);
                assert(matches_at(data, marker, j)) by {
                    assert(data.subrange(j, j + marker.len() as int)
                        =~= c1.subrange(k, k + marker.len() as int));
                }
            }
        }
    }
    lemma_find_from(c1, marker, 0);
    let m = find_from(c1, marker, 0);
    assert(matches_at(c1, marker, hl + 3));
    assert(!(m == -1));
    assert(!(m > hl + 3));
    if 0 <= m && m < hl + 3 {
        assert(matches_at(c1, marker, m));
        assert(!matches_at(c1, marker, m));
    }
    assert(m == hl + 3);
    // the closer put at the block's end is there
    let good_e = hl + 1 + dl - 5;
    assert(matches_at(c1, "\n  )\n"@, good_e)) by {
        assert(c1.subrange(good_e, good_e + 5) =~= data.subrange(dl - 5, dl));
    }
    // and no closer stands between the marker and it
    assert forall|k: int| m <= k < good_e implies !matches_at(c1, "\n  )\n"@, k) by {
        if matches_at(c1, "\n  )\n"@, k) {
            let j = k - (hl + 1);
            assert(0 <= j < dl - 5);
            assert(matches_at(data, "\n  )\n"@, j)) by {
                assert(data.subrange(j, j + 5) =~= c1.subrange(k, k + 5));
            }
        }
    }
    lemma_find_from(c1, "\n  )\n"@, m);
    let e = find_from(c1, "\n  )\n"@, m);
    assert(e == good_e) by {
        if e == -1 || e > good_e {
            assert(!matches_at(c1, "\n  )\n"@, good_e));
        }
        if m <= e < good_e {
            assert(matches_at(c1, "\n  )\n"@, e));
            assert(!matches_at(c1, "\n  )\n"@, e));
        }
        if 0 <= e < m {
            assert(e >= m);
        }
    }
    // replacing the block it already holds is the identity
    assert(c1.subrange(m - 2, e + 5) =~= data);
    assert(replaced_v6(c1, data, m, e) =~= c1);
}

/// Writing the same component twice with overwriting on leaves a fresh
/// library byte-equal: the second call replaces the block by itself, so
/// any text `updated_ok` admits for it is the library unchanged.
pub proof fn lemma_overwrite_idempotent_on_fresh(name: Seq<char>, data: Seq<char>,
    out: Seq<char>)
    requires
        v6_block_wf(data, name),
        contains_seq(data, "(symbol"@),
        updated_ok(appended_library(None, data), name, data, out),
    ensures
        out == appended_library(None, data),
{
    lemma_fresh_overwrite_identity(name, data);
}

} // verus!
