//! Decoding the component service's JSON answer.
//!
//! The HTTP transfer lives with the caller; this module turns the response
//! body into a `ComponentData`.  The JSON itself is read through
//! `serde_json` behind trusted declarations.  What the parser returns is a
//! function of the text alone, so it carries a name: `json_of` maps the
//! body to the library's own model of a JSON value (`JsonV`), `json_view`
//! names what one opaque parsed value holds, and every wrapper's contract
//! ties its result to that model.  The decoder's own contract then states,
//! over `decode_response`, exactly which answer each body produces.

use vstd::prelude::*;
use vstd::string::*;
use crate::pipeline::{ComponentData, Model3dInfo};
use crate::errors::EasyedaError;
use crate::importer::{str_eq, str_starts_with, starts_with_seq};
use crate::num::{parse_fixed, parse_fixed_spec, fits_coord};
use crate::lexer::{split_spec, split_fields};

verus! {

/// The library's model of a JSON value.  A number is carried as its
/// decimal rendering, which is all the decoder reads of it.
pub ghost enum JsonV {
    Null,
    Bool(bool),
    Num(Seq<char>),
    Str(Seq<char>),
    Arr(Seq<JsonV>),
    Obj(Map<Seq<char>, JsonV>),
}

/// What parsing a text as JSON yields: the model of the parsed document,
/// or nothing when the text is not JSON.  The parse is a function of the
/// text alone.
pub uninterp spec fn json_of(s: Seq<char>) -> Option<JsonV>;

/// What an opaque parsed JSON value holds, in the library's model.
pub uninterp spec fn json_view(v: serde_json::Value) -> JsonV;

#[verifier::external_type_specification]
#[verifier::external_body]
pub struct ExValue(serde_json::Value);

/// Relies on `serde_json::from_str::<Value>`: parse a JSON document, or
/// nothing when the text is not JSON; the parse depends on the text alone.
#[verifier::external_body]
fn json_parse(s: &str) -> (r: Option<serde_json::Value>)
    ensures
        match r {
            Some(v) => json_of(s@) == Some(json_view(v)),
            None => json_of(s@) is None,
        },
{
    match serde_json::from_str::<serde_json::Value>(s) {
        Ok(v) => Some(v),
        Err(_) => None,
    }
}

/// Relies on `serde_json::Value::get` with a string index: the member of
/// an object under that key, nothing for a missing key or any other kind
/// of value.
#[verifier::external_body]
fn json_get<'a>(v: &'a serde_json::Value, key: &str) -> (r: Option<&'a serde_json::Value>)
    ensures
        match r {
            Some(f) => json_view(*v) is Obj && json_view(*v)->Obj_0.contains_key(key@)
                && json_view(*f) == json_view(*v)->Obj_0[key@],
            None => !(json_view(*v) is Obj && json_view(*v)->Obj_0.contains_key(key@)),
        },
{
    v.get(key)
}

/// Relies on `serde_json::Value::as_str`: the text of a JSON string,
/// nothing for any other kind of value.
#[verifier::external_body]
fn json_as_string(v: &serde_json::Value) -> (r: Option<String>)
    ensures
        match r {
            Some(s) => json_view(*v) == JsonV::Str(s@),
            None => !(json_view(*v) is Str),
        },
{
    match v.as_str() {
        Some(s) => Some(s.to_string()),
        None => None,
    }
}

/// Relies on `serde_json::Value::as_bool`: the value of a JSON boolean,
/// nothing for any other kind of value.
#[verifier::external_body]
fn json_as_bool(v: &serde_json::Value) -> (r: Option<bool>)
    ensures
        match r {
            Some(b) => json_view(*v) == JsonV::Bool(b),
            None => !(json_view(*v) is Bool),
        },
{
    v.as_bool()
}

/// Relies on `serde_json::Value::as_array`: the element vector of a JSON
/// array, nothing for any other kind of value.
#[verifier::external_body]
fn json_as_array<'a>(v: &'a serde_json::Value) -> (r: Option<&'a Vec<serde_json::Value>>)
    ensures
        match r {
            Some(a) => json_view(*v) is Arr
                && json_view(*v)->Arr_0 == a@.map_values(|e: serde_json::Value| json_view(e)),
            None => !(json_view(*v) is Arr),
        },
{
    v.as_array()
}

/// Relies on `serde_json::Value::Number` and the `Display` of
/// `serde_json::Number`: the decimal rendering of a JSON number, which
/// depends on the number alone; nothing for any other kind of value.
#[verifier::external_body]
fn json_num_string(v: &serde_json::Value) -> (r: Option<String>)
    ensures
        match r {
            Some(s) => json_view(*v) == JsonV::Num(s@),
            None => !(json_view(*v) is Num),
        },
{
    match v {
        serde_json::Value::Number(n) => Some(format!("{}", n)),
        _ => None,
    }
}

// --- the decoded answer, as a specification ---

/// The member of an object under a key.
pub open spec fn jget(j: JsonV, key: Seq<char>) -> Option<JsonV> {
    if j is Obj && j->Obj_0.contains_key(key) {
        Some(j->Obj_0[key])
    } else {
        None
    }
}

/// A string member, empty when absent or not a string.
pub open spec fn jstr_or_empty(j: JsonV, key: Seq<char>) -> Seq<char> {
    match jget(j, key) {
        Some(f) => if f is Str { f->Str_0 } else { Seq::<char>::empty() },
        None => Seq::<char>::empty(),
    }
}

/// A numeric member read as a fixed-point value, zero when absent, not a
/// number, or not a plain decimal.
pub open spec fn jnum_or_zero(j: JsonV, key: Seq<char>) -> int {
    match jget(j, key) {
        Some(f) => if f is Num {
            match parse_fixed_spec(f->Num_0) {
                Some(v) => v,
                None => 0,
            }
        } else {
            0
        },
        None => 0,
    }
}

/// The string elements of a value list, in order; other elements drop.
pub open spec fn strings_of(es: Seq<JsonV>, i: int) -> Seq<Seq<char>>
    decreases es.len() - i when 0 <= i
{
    if i >= es.len() {
        Seq::<Seq<char>>::empty()
    } else if es[i] is Str {
        seq![es[i]->Str_0] + strings_of(es, i + 1)
    } else {
        strings_of(es, i + 1)
    }
}

/// The string elements of a `shape` member; empty when it is missing or
/// not an array.
pub open spec fn shape_strings_spec(j: JsonV) -> Seq<Seq<char>> {
    match jget(j, "shape"@) {
        Some(f) => if f is Arr { strings_of(f->Arr_0, 0) } else { Seq::<Seq<char>>::empty() },
        None => Seq::<Seq<char>>::empty(),
    }
}

/// The `success` flag; anything but a true boolean counts as failure.
pub open spec fn success_of(root: JsonV) -> bool {
    match jget(root, "success"@) {
        Some(f) => f is Bool && f->Bool_0,
        None => false,
    }
}

/// The 3D-model descriptor of one shape record: an `SVGNODE~` record whose
/// second field is JSON carrying `attrs.c_etype == "outline3D"` with a
/// string uuid and a string title.
pub open spec fn svgnode_model(rec: Seq<char>) -> Option<(Seq<char>, Seq<char>)> {
    if starts_with_seq(rec, "SVGNODE~"@) {
        let fs = split_spec(rec, '~');
        if fs.len() > 1 {
            match json_of(fs[1]) {
                Some(j) => match jget(j, "attrs"@) {
                    Some(attrs) => {
                        let etype = jget(attrs, "c_etype"@);
                        let uuid = jget(attrs, "uuid"@);
                        let title = jget(attrs, "title"@);
                        if etype is Some && etype->Some_0 is Str
                            && etype->Some_0->Str_0 == "outline3D"@
                            && uuid is Some && uuid->Some_0 is Str
                            && title is Some && title->Some_0 is Str {
                            Some((uuid->Some_0->Str_0, title->Some_0->Str_0))
                        } else {
                            None
                        }
                    },
                    None => None,
                },
                None => None,
            }
        } else {
            None
        }
    } else {
        None
    }
}

/// The first 3D-model descriptor of a shape stream.
pub open spec fn model_scan(shapes: Seq<Seq<char>>, i: int) -> Option<(Seq<char>, Seq<char>)>
    decreases shapes.len() - i when 0 <= i
{
    if i >= shapes.len() {
        None
    } else {
        match svgnode_model(shapes[i]) {
            Some(m) => Some(m),
            None => model_scan(shapes, i + 1),
        }
    }
}

/// The fetch record, as ghost data.
pub ghost struct DataV {
    pub lcsc_id: Seq<char>,
    pub title: Seq<char>,
    pub data_str: Seq<Seq<char>>,
    pub bbox_x: int,
    pub bbox_y: int,
    pub package_detail: Seq<Seq<char>>,
    pub package_bbox_x: int,
    pub package_bbox_y: int,
    pub model_3d: Option<(Seq<char>, Seq<char>)>,
    pub manufacturer: Seq<char>,
    pub datasheet: Seq<char>,
    pub jlc_id: Seq<char>,
}

/// The outcome the decoder owes for a response body.
pub ghost enum RespV {
    /// The body is not JSON, or a required member is missing: invalid data.
    Invalid,
    /// The service answered without success: the part is unknown.
    NotFound,
    /// The decoded record.
    Good(DataV),
}

/// What the footprint half of the answer yields: the shape strings, the
/// bounding-box origin, and whether the fallback list of plain strings was
/// taken.
pub open spec fn package_of(result: JsonV) -> (Seq<Seq<char>>, int, int) {
    match jget(result, "packageDetail"@) {
        Some(pkg) => match jget(pkg, "dataStr"@) {
            Some(pds) => {
                let head = jget(pds, "head"@);
                let bx = match head { Some(h) => jnum_or_zero(h, "x"@), None => 0 };
                let by = match head { Some(h) => jnum_or_zero(h, "y"@), None => 0 };
                (shape_strings_spec(pds), bx, by)
            },
            None => {
                if pkg is Arr {
                    (strings_of(pkg->Arr_0, 0), 0, 0)
                } else {
                    (Seq::<Seq<char>>::empty(), 0, 0)
                }
            },
        },
        None => (Seq::<Seq<char>>::empty(), 0, 0),
    }
}

/// The whole decode, as a function of the body and the part number: which
/// error is owed, or the exact record.
pub open spec fn decode_response(body: Seq<char>, lcsc_id: Seq<char>) -> RespV {
    match json_of(body) {
        None => RespV::Invalid,
        Some(root) => {
            if !success_of(root) {
                RespV::NotFound
            } else {
                match jget(root, "result"@) {
                    None => RespV::Invalid,
                    Some(result) => {
                        let title = jget(result, "title"@);
                        if !(title is Some && title->Some_0 is Str) {
                            RespV::Invalid
                        } else {
                            match jget(result, "dataStr"@) {
                                None => RespV::Invalid,
                                Some(ds) => {
                                    let head = jget(ds, "head"@);
                                    let cp = match head {
                                        Some(h) => jget(h, "c_para"@),
                                        None => None,
                                    };
                                    let pack = package_of(result);
                                    RespV::Good(DataV {
                                        lcsc_id,
                                        title: title->Some_0->Str_0,
                                        data_str: shape_strings_spec(ds),
                                        bbox_x: match head {
                                            Some(h) => jnum_or_zero(h, "x"@),
                                            None => 0,
                                        },
                                        bbox_y: match head {
                                            Some(h) => jnum_or_zero(h, "y"@),
                                            None => 0,
                                        },
                                        package_detail: pack.0,
                                        package_bbox_x: pack.1,
                                        package_bbox_y: pack.2,
                                        model_3d: model_scan(pack.0, 0),
                                        manufacturer: match cp {
                                            Some(c) => jstr_or_empty(c, "BOM_Manufacturer"@),
                                            None => Seq::<char>::empty(),
                                        },
                                        datasheet: match jget(result, "lcsc"@) {
                                            Some(lc) => jstr_or_empty(lc, "url"@),
                                            None => Seq::<char>::empty(),
                                        },
                                        jlc_id: match cp {
                                            Some(c) => jstr_or_empty(c,
                                                "BOM_JLCPCB Part Class"@),
                                            None => Seq::<char>::empty(),
                                        },
                                    })
                                },
                            }
                        }
                    },
                }
            }
        },
    }
}

/// The executable record carries exactly the ghost record.
pub open spec fn data_matches(d: ComponentData, v: DataV) -> bool {
    &&& d.lcsc_id@ == v.lcsc_id
    &&& d.title@ == v.title
    &&& d.data_str.deep_view() == v.data_str
    &&& d.bbox_x as int == v.bbox_x
    &&& d.bbox_y as int == v.bbox_y
    &&& d.package_detail.deep_view() == v.package_detail
    &&& d.package_bbox_x as int == v.package_bbox_x
    &&& d.package_bbox_y as int == v.package_bbox_y
    &&& (match (d.model_3d, v.model_3d) {
        (Some(m), Some(gm)) => m.uuid@ == gm.0 && m.title@ == gm.1,
        (None, None) => true,
        _ => false,
    })
    &&& d.manufacturer@ == v.manufacturer
    &&& d.datasheet@ == v.datasheet
    &&& d.jlc_id@ == v.jlc_id
}

fn num_field_or_zero(v: &serde_json::Value, key: &str) -> (r: i64)
    ensures
        r as int == jnum_or_zero(json_view(*v), key@),
        fits_coord(r as int),
{
    proof {
        crate::num::lemma_parse_fixed_fits(Seq::<char>::empty());
    }
    match json_get(v, key) {
        Some(field) => match json_num_string(field) {
            Some(text) => {
                proof {
                    crate::num::lemma_parse_fixed_fits(text@);
                }
                match parse_fixed(text.as_str()) {
                    Some(value) => value,
                    None => 0,
                }
            },
            None => 0,
        },
        None => 0,
    }
}

fn str_field_or_empty(v: &serde_json::Value, key: &str) -> (r: String)
    ensures
        r@ == jstr_or_empty(json_view(*v), key@),
{
    match json_get(v, key) {
        Some(field) => match json_as_string(field) {
            Some(s) => s,
            None => String::new(),
        },
        None => String::new(),
    }
}

/// The string elements of a JSON `shape` array, in order; other elements
/// are dropped, and a missing or non-array member gives the empty list.
fn shape_strings(v: &serde_json::Value) -> (r: Vec<String>)
    ensures
        r.deep_view() == shape_strings_spec(json_view(*v)),
{
    let mut out: Vec<String> = Vec::new();
    match json_get(v, "shape") {
        Some(arr_val) => {
            match json_as_array(arr_val) {
                Some(arr) => {
                    let es = collect_strings(arr);
                    proof {
                        assert(es.deep_view()
                            == strings_of(json_view(*arr_val)->Arr_0, 0));
                    }
                    return es;
                },
                None => {},
            }
        },
        None => {},
    }
    proof {
        assert(out.deep_view() =~= shape_strings_spec(json_view(*v)));
    }
    out
}

/// The string elements of a parsed array; exactly `strings_of`.
fn collect_strings(arr: &Vec<serde_json::Value>) -> (r: Vec<String>)
    ensures
        r.deep_view() == strings_of(arr@.map_values(|e: serde_json::Value| json_view(e)), 0),
{
    let ghost ev = arr@.map_values(|e: serde_json::Value| json_view(e));
    let mut out: Vec<String> = Vec::new();
    let mut i: usize = 0;
    proof {
        assert(out.deep_view() + strings_of(ev, 0) =~= strings_of(ev, 0));
    }
    while i < arr.len()
        invariant
            0 <= i <= arr@.len(),
            ev == arr@.map_values(|e: serde_json::Value| json_view(e)),
            ev.len() == arr@.len(),
            strings_of(ev, 0) == out.deep_view() + strings_of(ev, i as int),
        decreases arr@.len() - i,
    {
        proof {
            assert(ev[i as int] == json_view(arr@[i as int]));
        }
        match json_as_string(&arr[i]) {
            Some(s) => {
                let ghost old_dv = out.deep_view();
                out.push(s);
                proof {
                    assert(out.deep_view() =~= old_dv.push(ev[i as int]->Str_0));
                    assert(out.deep_view() + strings_of(ev, i + 1)
                        =~= old_dv + strings_of(ev, i as int));
                }
            },
            None => {
                proof {
                    assert(strings_of(ev, i + 1) == strings_of(ev, i as int));
                }
            },
        }
        i = i + 1;
    }
    proof {
        assert(strings_of(ev, i as int) == Seq::<Seq<char>>::empty());
        assert(out.deep_view() + Seq::<Seq<char>>::empty() =~= out.deep_view());
    }
    out
}

/// Scan a footprint shape stream for the 3D-model descriptor; exactly the
/// first record `svgnode_model` accepts, or nothing.
pub fn extract_3d_model_from_svgnode(shapes: &Vec<String>) -> (r: Option<Model3dInfo>)
    ensures
        match r {
            Some(m) => model_scan(shapes.deep_view(), 0) == Some((m.uuid@, m.title@)),
            None => model_scan(shapes.deep_view(), 0) is None,
        },
{
    let ghost sv = shapes.deep_view();
    let mut i: usize = 0;
    proof {
        assert(sv.len() == shapes@.len());
    }
    while i < shapes.len()
        invariant
            0 <= i <= shapes@.len(),
            sv == shapes.deep_view(),
            sv.len() == shapes@.len(),
            model_scan(sv, 0) == model_scan(sv, i as int),
        decreases shapes@.len() - i,
    {
        proof {
            assert(sv[i as int] == shapes@[i as int]@);
        }
        let shape = shapes[i].as_str();
        if str_starts_with(shape, "SVGNODE~") {
            let fields = split_fields(shape, '~');
            let ghost fs = split_spec(sv[i as int], '~');
            proof {
                assert(fields.deep_view() == fs);
                assert(fields.deep_view().len() == fields@.len());
            }
            if fields.len() > 1 {
                proof {
                    assert(fs[1] == fields@[1]@);
                }
                match json_parse(fields[1].as_str()) {
                    Some(svg_data) => {
                        match json_get(&svg_data, "attrs") {
                            Some(attrs) => {
                                let etype_ok = match json_get(attrs, "c_etype") {
                                    Some(e) => match json_as_string(e) {
                                        Some(s) => str_eq(s.as_str(), "outline3D"),
                                        None => false,
                                    },
                                    None => false,
                                };
                                if etype_ok {
                                    let uuid = match json_get(attrs, "uuid") {
                                        Some(u) => json_as_string(u),
                                        None => None,
                                    };
                                    let title = match json_get(attrs, "title") {
                                        Some(t) => json_as_string(t),
                                        None => None,
                                    };
                                    match (uuid, title) {
                                        (Some(uuid), Some(title)) => {
                                            proof {
                                                assert(svgnode_model(sv[i as int])
                                                    == Some((uuid@, title@)));
                                            }
                                            return Some(Model3dInfo { uuid, title });
                                        },
                                        _ => {
                                            proof {
                                                assert(svgnode_model(sv[i as int]) is None);
                                            }
                                        },
                                    }
                                } else {
                                    proof {
                                        assert(svgnode_model(sv[i as int]) is None);
                                    }
                                }
                            },
                            None => {
                                proof {
                                    assert(svgnode_model(sv[i as int]) is None);
                                }
                            },
                        }
                    },
                    None => {
                        proof {
                            assert(svgnode_model(sv[i as int]) is None);
                        }
                    },
                }
            } else {
                proof {
                    assert(svgnode_model(sv[i as int]) is None);
                }
            }
        } else {
            proof {
                assert(svgnode_model(sv[i as int]) is None);
            }
        }
        i = i + 1;
    }
    None
}

/// Decode the component service's JSON answer into a fetch record: the
/// result is exactly what `decode_response` owes for this body.  A body
/// that is not JSON or lacks a required member is invalid data; an
/// unsuccessful answer means the part is unknown.
pub fn parse_component_response(body: &str, lcsc_id: &str)
    -> (r: Result<ComponentData, EasyedaError>)
    ensures
        match r {
            Ok(d) => decode_response(body@, lcsc_id@) is Good
                && data_matches(d, decode_response(body@, lcsc_id@)->Good_0),
            Err(e) => match e {
                EasyedaError::ComponentNotFound(id) => id@ == lcsc_id@
                    && decode_response(body@, lcsc_id@) is NotFound,
                EasyedaError::InvalidData(_) => decode_response(body@, lcsc_id@) is Invalid,
                _ => false,
            },
        },
{
    let root = match json_parse(body) {
        Some(v) => v,
        None => {
            let mut m = String::new();
            m.append("Failed to parse JSON");
            return Err(EasyedaError::InvalidData(m));
        },
    };
    let success = match json_get(&root, "success") {
        Some(s) => match json_as_bool(s) {
            Some(b) => b,
            None => false,
        },
        None => false,
    };
    if !success {
        return Err(EasyedaError::ComponentNotFound(lcsc_id.to_owned()));
    }
    let result = match json_get(&root, "result") {
        Some(v) => v,
        None => {
            let mut m = String::new();
            m.append("Missing result field");
            return Err(EasyedaError::InvalidData(m));
        },
    };
    let title = match json_get(result, "title") {
        Some(t) => match json_as_string(t) {
            Some(s) => s,
            None => {
                let mut m = String::new();
                m.append("Missing title field");
                return Err(EasyedaError::InvalidData(m));
            },
        },
        None => {
            let mut m = String::new();
            m.append("Missing title field");
            return Err(EasyedaError::InvalidData(m));
        },
    };
    let ds = match json_get(result, "dataStr") {
        Some(v) => v,
        None => {
            let mut m = String::new();
            m.append("Missing dataStr field");
            return Err(EasyedaError::InvalidData(m));
        },
    };
    let mut bbox_x: i64 = 0;
    let mut bbox_y: i64 = 0;
    let mut manufacturer = String::new();
    let mut jlc_id = String::new();
    match json_get(ds, "head") {
        Some(head) => {
            bbox_x = num_field_or_zero(head, "x");
            bbox_y = num_field_or_zero(head, "y");
            match json_get(head, "c_para") {
                Some(cp) => {
                    manufacturer = str_field_or_empty(cp, "BOM_Manufacturer");
                    jlc_id = str_field_or_empty(cp, "BOM_JLCPCB Part Class");
                },
                None => {},
            }
        },
        None => {},
    }
    let data_str = shape_strings(ds);
    let datasheet = match json_get(result, "lcsc") {
        Some(lc) => str_field_or_empty(lc, "url"),
        None => String::new(),
    };
    let mut package_detail: Vec<String> = Vec::new();
    let mut package_bbox_x: i64 = 0;
    let mut package_bbox_y: i64 = 0;
    match json_get(result, "packageDetail") {
        Some(pkg) => {
            match json_get(pkg, "dataStr") {
                Some(pds) => {
                    match json_get(pds, "head") {
                        Some(head) => {
                            package_bbox_x = num_field_or_zero(head, "x");
                            package_bbox_y = num_field_or_zero(head, "y");
                        },
                        None => {},
                    }
                    package_detail = shape_strings(pds);
                },
                None => {
                    match json_as_array(pkg) {
                        Some(arr) => {
                            package_detail = collect_strings(arr);
                        },
                        None => {},
                    }
                },
            }
        },
        None => {},
    }
    proof {
        assert(package_detail.deep_view()
            == package_of(json_view(*result)).0);
        assert(package_bbox_x as int == package_of(json_view(*result)).1);
        assert(package_bbox_y as int == package_of(json_view(*result)).2);
    }
    let model_3d = extract_3d_model_from_svgnode(&package_detail);
    Ok(ComponentData {
        lcsc_id: lcsc_id.to_owned(),
        title,
        data_str,
        bbox_x,
        bbox_y,
        package_detail,
        package_bbox_x,
        package_bbox_y,
        model_3d,
        manufacturer,
        datasheet,
        jlc_id,
    })
}

} // verus!
