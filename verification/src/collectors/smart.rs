//! Drive health, from the JSON that `smartctl -j` prints.
//!
//! The JSON is read through serde_json at JSON pointers (RFC 6901); what a
//! device reports is decided here from the values found there.

use vstd::prelude::*;
use vstd::string::StringExecFns;

use crate::snapshot::SmartDevice;
use crate::text::{decimal, push_decimal, push_str, views};

verus! {

/// A value read from a JSON document at a JSON pointer, as far as the
/// drive report needs to tell values apart.
#[derive(Debug)]
pub enum JsonScalar {
    /// Nothing there, `null`, or an object.
    Absent,
    /// A boolean.
    Flag(bool),
    /// A number, as a signed and as an unsigned 64-bit integer where it is one.
    Number(Option<i64>, Option<u64>),
    /// A string.
    Text(String),
    /// An array, by its length.
    List(usize),
}

/// What a [`JsonScalar`] holds.
pub enum JsonScalarView {
    Absent,
    Flag(bool),
    Number(Option<i64>, Option<u64>),
    Text(Seq<char>),
    List(nat),
}

impl View for JsonScalar {
    type V = JsonScalarView;

    open spec fn view(&self) -> JsonScalarView {
        match self {
            JsonScalar::Absent => JsonScalarView::Absent,
            JsonScalar::Flag(b) => JsonScalarView::Flag(*b),
            JsonScalar::Number(i, u) => JsonScalarView::Number(*i, *u),
            JsonScalar::Text(s) => JsonScalarView::Text(s@),
            JsonScalar::List(n) => JsonScalarView::List(*n as nat),
        }
    }
}

/// What serde_json reads in the text `json` at the JSON pointer `pointer`:
/// `None` when `json` is not a JSON document, else the value there.
pub uninterp spec fn json_at(json: Seq<char>, pointer: Seq<char>) -> Option<JsonScalarView>;

/// `serde_json::from_str` into a `serde_json::Value`, then
/// `Value::pointer` at each of `pointers`: `None` when the text is not JSON
/// (then nothing can be read at any pointer); otherwise one value per
/// pointer, in order.
#[verifier::external_body]
fn json_lookup(json: &str, pointers: &Vec<String>) -> (r: Option<Vec<JsonScalar>>)
    ensures
        match r {
            Some(v) => v@.len() == pointers@.len() && forall|i: int|
                0 <= i < v@.len() ==> json_at(json@, pointers@[i]@) == Some(#[trigger] v@[i]@),
            None => forall|p: Seq<char>| #[trigger] json_at(json@, p) is None,
        },
{
    let doc: serde_json::Value = serde_json::from_str(json).ok()?;
    Some(pointers.iter().map(|p| match doc.pointer(p) {
        Some(serde_json::Value::Bool(b)) => JsonScalar::Flag(*b),
        Some(serde_json::Value::Number(n)) => JsonScalar::Number(n.as_i64(), n.as_u64()),
        Some(serde_json::Value::String(s)) => JsonScalar::Text(s.clone()),
        Some(serde_json::Value::Array(a)) => JsonScalar::List(a.len()),
        _ => JsonScalar::Absent,
    }).collect())
}

/// The value at `pointer`, `Absent` when the text is not JSON.
pub open spec fn scalar_at(json: Seq<char>, pointer: Seq<char>) -> JsonScalarView {
    match json_at(json, pointer) {
        Some(x) => x,
        None => JsonScalarView::Absent,
    }
}

/// The string a value is, if it is one (`Value::as_str`).
pub open spec fn text_of(x: JsonScalarView) -> Option<Seq<char>> {
    match x {
        JsonScalarView::Text(s) => Some(s),
        _ => None,
    }
}

/// The boolean a value is, if it is one (`Value::as_bool`).
pub open spec fn flag_of(x: JsonScalarView) -> Option<bool> {
    match x {
        JsonScalarView::Flag(b) => Some(b),
        _ => None,
    }
}

/// The value as a signed 64-bit integer (`Value::as_i64`).
pub open spec fn int_of(x: JsonScalarView) -> Option<i64> {
    match x {
        JsonScalarView::Number(i, _) => i,
        _ => None,
    }
}

/// The value as an unsigned 64-bit integer (`Value::as_u64`).
pub open spec fn uint_of(x: JsonScalarView) -> Option<u64> {
    match x {
        JsonScalarView::Number(_, u) => u,
        _ => None,
    }
}

/// The length of an array value.
pub open spec fn list_len(x: JsonScalarView) -> Option<nat> {
    match x {
        JsonScalarView::List(n) => Some(n),
        _ => None,
    }
}

/// The pointer to `field` of the `i`-th ATA attribute.
pub open spec fn attr_pointer(i: nat, field: Seq<char>) -> Seq<char> {
    "/ata_smart_attributes/table/"@ + decimal(i) + field
}

/// The raw value of the first ATA attribute with id 5 (reallocated
/// sectors) among the attributes `i` to `n - 1`.
pub open spec fn reallocated_from(json: Seq<char>, n: nat, i: nat) -> Option<u64>
    decreases n - i,
{
    if i >= n {
        None
    } else if uint_of(scalar_at(json, attr_pointer(i, "/id"@))) == Some(5u64) {
        uint_of(scalar_at(json, attr_pointer(i, "/raw/value"@)))
    } else {
        reallocated_from(json, n, i + 1)
    }
}

/// A drive's report: device, model, health, temperature, reallocated
/// sectors, wear and power-on hours.
pub type SmartView = (Seq<char>, Seq<char>, Option<bool>, Option<i64>, Option<u64>, Option<u64>, Option<u64>);

/// What a [`SmartDevice`] records.
pub open spec fn smart_view(d: SmartDevice) -> SmartView {
    (
        d.device@,
        d.model@,
        d.health_passed,
        d.temperature_c,
        d.reallocated_sectors,
        d.wear_percent,
        d.power_on_hours,
    )
}

/// What one device's `smartctl -j -H -A -i` report says. `None` when the
/// text is not JSON, or when it carries no health signal at all (neither a
/// health verdict, a temperature, a reallocated-sector count nor a wear
/// level: the device could not actually be read). Otherwise the device
/// name (`?` when missing); the model name, else the model family, else
/// `unknown`; the health verdict; the current temperature; the raw value of
/// the first ATA attribute with id 5; the NVMe percentage used; and the NVMe
/// power-on hours, else the general power-on hours.
pub open spec fn smart_device_of(json: Seq<char>) -> Option<SmartView> {
    if json_at(json, "/device/name"@) is None {
        None
    } else {
        let device = match text_of(scalar_at(json, "/device/name"@)) {
            Some(s) => s,
            None => "?"@,
        };
        let model = match text_of(scalar_at(json, "/model_name"@)) {
            Some(s) => s,
            None => match text_of(scalar_at(json, "/model_family"@)) {
                Some(s) => s,
                None => "unknown"@,
            },
        };
        let passed = flag_of(scalar_at(json, "/smart_status/passed"@));
        let temperature = int_of(scalar_at(json, "/temperature/current"@));
        let reallocated = match list_len(scalar_at(json, "/ata_smart_attributes/table"@)) {
            Some(n) => reallocated_from(json, n, 0),
            None => None,
        };
        let wear = uint_of(scalar_at(json, "/nvme_smart_health_information_log/percentage_used"@));
        let hours = match uint_of(
            scalar_at(json, "/nvme_smart_health_information_log/power_on_hours"@),
        ) {
            Some(h) => Some(h),
            None => uint_of(scalar_at(json, "/power_on_time/hours"@)),
        };
        if passed is None && temperature is None && reallocated is None && wear is None {
            None
        } else {
            Some((device, model, passed, temperature, reallocated, wear, hours))
        }
    }
}

/// The pointer to the name of the `i`-th device of a scan.
pub open spec fn device_name_pointer(i: nat) -> Seq<char> {
    "/devices/"@ + decimal(i) + "/name"@
}

/// The names among the first `k` devices of a scan, in order, skipping
/// entries without a string name.
pub open spec fn names_upto(json: Seq<char>, k: nat) -> Seq<Seq<char>>
    decreases k,
{
    if k == 0 {
        Seq::empty()
    } else {
        let before = names_upto(json, (k - 1) as nat);
        match text_of(scalar_at(json, device_name_pointer((k - 1) as nat))) {
            Some(s) => before.push(s),
            None => before,
        }
    }
}

/// The device names a `smartctl --scan -j` listing holds: the string
/// `name` of each entry of its `devices` array, in order; none when the
/// text is not JSON or has no such array.
pub open spec fn scan_names(json: Seq<char>) -> Seq<Seq<char>> {
    match list_len(scalar_at(json, "/devices"@)) {
        Some(n) => names_upto(json, n),
        None => Seq::empty(),
    }
}

fn string_of(s: &str) -> (r: String)
    ensures
        r@ == s@,
{
    String::from_str(s)
}

fn text_exec(x: &JsonScalar) -> (r: Option<String>)
    ensures
        match r {
            Some(s) => text_of(x@) == Some(s@),
            None => text_of(x@) is None,
        },
{
    match x {
        JsonScalar::Text(s) => Some(s.clone()),
        _ => None,
    }
}

fn uint_exec(x: &JsonScalar) -> (r: Option<u64>)
    ensures
        r == uint_of(x@),
{
    match x {
        JsonScalar::Number(_, u) => *u,
        _ => None,
    }
}

/// The pointer to `field` of the `i`-th ATA attribute.
fn attr_pointer_exec(i: usize, field: &str) -> (s: String)
    ensures
        s@ == attr_pointer(i as nat, field@),
{
    let mut s = string_of("/ata_smart_attributes/table/");
    push_decimal(&mut s, i as u64);
    push_str(&mut s, field);
    s
}

/// The raw value of the first ATA attribute with id 5 among the `n`
/// attributes of a report that is JSON.
fn reallocated(json: &str, n: usize) -> (r: Option<u64>)
    requires
        json_at(json@, "/device/name"@) is Some,
    ensures
        r == reallocated_from(json@, n as nat, 0),
{
    let mut i: usize = 0;
    while i < n
        invariant
            i <= n,
            json_at(json@, "/device/name"@) is Some,
            reallocated_from(json@, n as nat, i as nat) == reallocated_from(json@, n as nat, 0),
        decreases n - i,
    {
        let id_p = attr_pointer_exec(i, "/id");
        let raw_p = attr_pointer_exec(i, "/raw/value");
        let mut ps: Vec<String> = Vec::new();
        ps.push(id_p);
        ps.push(raw_p);
        assert(ps@[0]@ == attr_pointer(i as nat, "/id"@) && ps@[1]@ == attr_pointer(i as nat, "/raw/value"@));
        let got = json_lookup(json, &ps);
        match got {
            Some(v) => {
                assert(scalar_at(json@, attr_pointer(i as nat, "/id"@)) == v@[0]@);
                assert(scalar_at(json@, attr_pointer(i as nat, "/raw/value"@)) == v@[1]@);
                if uint_exec(&v[0]) == Some(5u64) {
                    return uint_exec(&v[1]);
                }
            },
            None => {
                assert(json_at(json@, "/device/name"@) is None);
                return None;
            },
        }
        i = i + 1;
    }
    None
}

/// Parse one device's `smartctl -j -H -A -i` report (see
/// [`smart_device_of`]).
pub fn parse_device(json: &str) -> (r: Option<SmartDevice>)
    ensures
        match r {
            Some(d) => smart_device_of(json@) == Some(smart_view(d)),
            None => smart_device_of(json@) is None,
        },
{
    let mut ps: Vec<String> = Vec::new();
    ps.push(string_of("/device/name"));
    ps.push(string_of("/model_name"));
    ps.push(string_of("/model_family"));
    ps.push(string_of("/smart_status/passed"));
    ps.push(string_of("/temperature/current"));
    ps.push(string_of("/ata_smart_attributes/table"));
    ps.push(string_of("/nvme_smart_health_information_log/percentage_used"));
    ps.push(string_of("/nvme_smart_health_information_log/power_on_hours"));
    ps.push(string_of("/power_on_time/hours"));
    assert(ps@[0]@ == "/device/name"@ && ps@[1]@ == "/model_name"@ && ps@[2]@ == "/model_family"@);
    assert(ps@[3]@ == "/smart_status/passed"@ && ps@[4]@ == "/temperature/current"@);
    assert(ps@[5]@ == "/ata_smart_attributes/table"@);
    assert(ps@[6]@ == "/nvme_smart_health_information_log/percentage_used"@);
    assert(ps@[7]@ == "/nvme_smart_health_information_log/power_on_hours"@);
    assert(ps@[8]@ == "/power_on_time/hours"@ && ps@.len() == 9);
    let v = match json_lookup(json, &ps) {
        Some(v) => v,
        None => {
            assert(json_at(json@, "/device/name"@) is None);
            return None;
        },
    };
    assert(scalar_at(json@, "/device/name"@) == v@[0]@ && json_at(json@, "/device/name"@) is Some);
    assert(scalar_at(json@, "/model_name"@) == v@[1]@);
    assert(scalar_at(json@, "/model_family"@) == v@[2]@);
    assert(scalar_at(json@, "/smart_status/passed"@) == v@[3]@);
    assert(scalar_at(json@, "/temperature/current"@) == v@[4]@);
    assert(scalar_at(json@, "/ata_smart_attributes/table"@) == v@[5]@);
    assert(scalar_at(json@, "/nvme_smart_health_information_log/percentage_used"@) == v@[6]@);
    assert(scalar_at(json@, "/nvme_smart_health_information_log/power_on_hours"@) == v@[7]@);
    assert(scalar_at(json@, "/power_on_time/hours"@) == v@[8]@);
    let device = match text_exec(&v[0]) {
        Some(s) => s,
        None => string_of("?"),
    };
    let model = match text_exec(&v[1]) {
        Some(s) => s,
        None => match text_exec(&v[2]) {
            Some(s) => s,
            None => string_of("unknown"),
        },
    };
    let passed = match &v[3] {
        JsonScalar::Flag(b) => Some(*b),
        _ => None,
    };
    let temperature = match &v[4] {
        JsonScalar::Number(i, _) => *i,
        _ => None,
    };
    let reallocated_sectors = match &v[5] {
        JsonScalar::List(n) => reallocated(json, *n),
        _ => None,
    };
    let wear = uint_exec(&v[6]);
    let hours = match uint_exec(&v[7]) {
        Some(h) => Some(h),
        None => uint_exec(&v[8]),
    };
    if passed.is_none() && temperature.is_none() && reallocated_sectors.is_none()
        && wear.is_none() {
        return None;
    }
    Some(
        SmartDevice {
            device,
            model,
            health_passed: passed,
            temperature_c: temperature,
            reallocated_sectors,
            wear_percent: wear,
            power_on_hours: hours,
        },
    )
}

/// The pointer to the name of the `i`-th device of a scan.
fn device_name_pointer_exec(i: usize) -> (s: String)
    ensures
        s@ == device_name_pointer(i as nat),
{
    let mut s = string_of("/devices/");
    push_decimal(&mut s, i as u64);
    push_str(&mut s, "/name");
    s
}

/// The device names of a `smartctl --scan -j` listing (see
/// [`scan_names`]).
pub fn parse_scan(json: &str) -> (r: Vec<String>)
    ensures
        views(r@) == scan_names(json@),
{
    let mut r: Vec<String> = Vec::new();
    let mut ps: Vec<String> = Vec::new();
    ps.push(string_of("/devices"));
    assert(ps@[0]@ == "/devices"@);
    let n = match json_lookup(json, &ps) {
        Some(v) => {
            assert(scalar_at(json@, "/devices"@) == v@[0]@ && json_at(json@, "/devices"@) is Some);
            match &v[0] {
                JsonScalar::List(n) => *n,
                _ => {
                    assert(views(r@) =~= Seq::<Seq<char>>::empty());
                    return r;
                },
            }
        },
        None => {
            assert(json_at(json@, "/devices"@) is None);
            assert(views(r@) =~= Seq::<Seq<char>>::empty());
            return r;
        },
    };
    assert(json_at(json@, "/devices"@) is Some);
    let mut i: usize = 0;
    assert(views(r@) =~= names_upto(json@, 0));
    while i < n
        invariant
            i <= n,
            json_at(json@, "/devices"@) is Some,
            list_len(scalar_at(json@, "/devices"@)) == Some(n as nat),
            views(r@) == names_upto(json@, i as nat),
        decreases n - i,
    {
        let mut one: Vec<String> = Vec::new();
        one.push(device_name_pointer_exec(i));
        assert(one@[0]@ == device_name_pointer(i as nat));
        match json_lookup(json, &one) {
            Some(w) => {
                assert(scalar_at(json@, device_name_pointer(i as nat)) == w@[0]@);
                match text_exec(&w[0]) {
                    Some(s) => {
                        r.push(s);
                        assert(views(r@) =~= names_upto(json@, i as nat).push(s@));
                    },
                    None => {},
                }
            },
            None => {
                assert(json_at(json@, "/devices"@) is None);
            },
        }
        i = i + 1;
    }
    r
}

} // verus!
