//! The KiCad layer map for vendor footprint layer identifiers.

use vstd::prelude::*;
use vstd::string::*;

verus! {

/// The KiCad layer a vendor layer id maps to, front silkscreen by default.
pub open spec fn map_layer_spec(layer_id: int) -> Seq<char> {
    if layer_id == 1 { "F.Cu"@ }
    else if layer_id == 2 { "B.Cu"@ }
    else if layer_id == 3 { "F.SilkS"@ }
    else if layer_id == 4 { "B.SilkS"@ }
    else if layer_id == 5 { "F.Paste"@ }
    else if layer_id == 6 { "B.Paste"@ }
    else if layer_id == 7 { "F.Mask"@ }
    else if layer_id == 8 { "B.Mask"@ }
    else if layer_id == 10 { "Edge.Cuts"@ }
    else if layer_id == 11 { "Edge.Cuts"@ }
    else if layer_id == 12 { "Cmts.User"@ }
    else if layer_id == 13 { "F.Fab"@ }
    else if layer_id == 14 { "B.Fab"@ }
    else if layer_id == 15 { "Dwgs.User"@ }
    else if layer_id == 101 { "F.Fab"@ }
    else { "F.SilkS"@ }
}

/// The copper, paste and mask set a surface pad on the given layer uses.
pub open spec fn pad_layers_smd_spec(layer_id: int) -> Seq<Seq<char>> {
    if layer_id == 1 { seq!["F.Cu"@, "F.Paste"@, "F.Mask"@] }
    else if layer_id == 2 { seq!["B.Cu"@, "B.Paste"@, "B.Mask"@] }
    else if layer_id == 3 { seq!["F.SilkS"@] }
    else if layer_id == 11 { seq!["*.Cu"@, "*.Paste"@, "*.Mask"@] }
    else if layer_id == 13 { seq!["F.Fab"@] }
    else if layer_id == 15 { seq!["Dwgs.User"@] }
    else { seq!["F.Cu"@, "F.Paste"@, "F.Mask"@] }
}

/// The layer set of a through-hole pad: the drill runs through every
/// copper layer, so the pad lands on all copper and all mask, never on
/// paste, whatever side the source named.
pub open spec fn pad_layers_tht_spec(layer_id: int) -> Seq<Seq<char>> {
    seq!["*.Cu"@, "*.Mask"@]
}

/// Map a vendor layer id to the KiCad layer name for plain graphics.
pub fn map_layer(layer_id: i64) -> (r: String)
    ensures
        r@ == map_layer_spec(layer_id as int),
{
    let s: &'static str = if layer_id == 1 { "F.Cu" }
    else if layer_id == 2 { "B.Cu" }
    else if layer_id == 3 { "F.SilkS" }
    else if layer_id == 4 { "B.SilkS" }
    else if layer_id == 5 { "F.Paste" }
    else if layer_id == 6 { "B.Paste" }
    else if layer_id == 7 { "F.Mask" }
    else if layer_id == 8 { "B.Mask" }
    else if layer_id == 10 { "Edge.Cuts" }
    else if layer_id == 11 { "Edge.Cuts" }
    else if layer_id == 12 { "Cmts.User" }
    else if layer_id == 13 { "F.Fab" }
    else if layer_id == 14 { "B.Fab" }
    else if layer_id == 15 { "Dwgs.User" }
    else if layer_id == 101 { "F.Fab" }
    else { "F.SilkS" };
    s.to_owned()
}

fn one(a: &'static str) -> (r: Vec<String>)
    ensures
        r.deep_view() =~= seq![a@],
{
    let mut v: Vec<String> = Vec::new();
    v.push(a.to_owned());
    proof {
        assert(v.deep_view() =~= seq![a@]);
    }
    v
}

fn three(a: &'static str, b: &'static str, c: &'static str) -> (r: Vec<String>)
    ensures
        r.deep_view() =~= seq![a@, b@, c@],
{
    let mut v: Vec<String> = Vec::new();
    v.push(a.to_owned());
    v.push(b.to_owned());
    v.push(c.to_owned());
    proof {
        assert(v.deep_view() =~= seq![a@, b@, c@]);
    }
    v
}

fn two(a: &'static str, b: &'static str) -> (r: Vec<String>)
    ensures
        r.deep_view() =~= seq![a@, b@],
{
    let mut v: Vec<String> = Vec::new();
    v.push(a.to_owned());
    v.push(b.to_owned());
    proof {
        assert(v.deep_view() =~= seq![a@, b@]);
    }
    v
}

/// The pad layer set of a surface pad.
pub fn map_pad_layers_smd(layer_id: i64) -> (r: Vec<String>)
    ensures
        r.deep_view() == pad_layers_smd_spec(layer_id as int),
{
    if layer_id == 1 { three("F.Cu", "F.Paste", "F.Mask") }
    else if layer_id == 2 { three("B.Cu", "B.Paste", "B.Mask") }
    else if layer_id == 3 { one("F.SilkS") }
    else if layer_id == 11 { three("*.Cu", "*.Paste", "*.Mask") }
    else if layer_id == 13 { one("F.Fab") }
    else if layer_id == 15 { one("Dwgs.User") }
    else { three("F.Cu", "F.Paste", "F.Mask") }
}

/// The pad layer set of a through-hole pad.
pub fn map_pad_layers_tht(layer_id: i64) -> (r: Vec<String>)
    ensures
        r.deep_view() == pad_layers_tht_spec(layer_id as int),
{
    two("*.Cu", "*.Mask")
}

} // verus!
