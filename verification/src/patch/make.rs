//! The elements that the entries of a patch file describe.
use vstd::prelude::*;

use crate::addressblock::AddressBlockUsage;
use crate::field::{opt_chars, FieldInfoModel};
use crate::patch::yaml::{
    first_key, get_bool, get_hash, get_i64, get_key_spec, get_str, model, number_spec, parse_i64, YamlValue, YamlModel,
};
use crate::text::{concat, owned};
use crate::patch::error::PatchError;
use crate::{
    Field, RegisterInfo, RegisterInfoBuilder,
    Access, AddressBlock, ClusterInfo, ClusterInfoBuilder, EnumeratedValue, EnumeratedValues,
    EnumeratedValuesBuilder, FieldInfo, FieldInfoBuilder, Interrupt, RegisterProperties, SvdError,
    Usage, ValidateLevel,
};

verus! {

/// The level at which patched elements are validated.
pub const VAL_LVL: ValidateLevel = ValidateLevel::Weak;

/// The suffix of the name of enumerated values used for `usage`.
pub open spec fn usage_suffix(usage: Usage) -> Seq<char> {
    match usage {
        Usage::Read => "R"@,
        Usage::Write => "W"@,
        Usage::ReadWrite => ""@,
    }
}

/// `0`-`9`.
pub open spec fn is_ascii_digit(c: char) -> bool {
    '0' <= c <= '9'
}

/// The name of enumerated values for `usage`: the name, then `R` for read
/// or `W` for write. The name must not be empty nor start with a digit.
pub fn make_ev_name(name: &str, usage: Usage) -> (r: String)
    requires
        name@.len() > 0,
        !is_ascii_digit(name@[0]),
    ensures
        r@ == name@ + usage_suffix(usage),
{
    let suffix = match usage {
        Usage::Read => "R",
        Usage::Write => "W",
        Usage::ReadWrite => "",
    };
    proof {
        reveal_strlit("R");
        reveal_strlit("W");
        reveal_strlit("");
    }
    concat(name, suffix)
}

/// The names made for the enumerated values of one field: the read one
/// ends in `R`, the write one in `W`, so the two differ; the read-write one
/// is the field's name itself.
pub proof fn lemma_ev_names_by_usage(name: Seq<char>)
    ensures
        (name + usage_suffix(Usage::Read)).last() == 'R',
        (name + usage_suffix(Usage::Write)).last() == 'W',
        (name + usage_suffix(Usage::Read)).drop_last() == name,
        (name + usage_suffix(Usage::Write)).drop_last() == name,
        name + usage_suffix(Usage::Read) != name + usage_suffix(Usage::Write),
        name + usage_suffix(Usage::ReadWrite) == name,
{
    reveal_strlit("R");
    reveal_strlit("W");
    reveal_strlit("");
    assert((name + "R"@).drop_last() =~= name);
    assert((name + "W"@).drop_last() =~= name);
    assert(name + ""@ =~= name);
    assert((name + "R"@).last() != (name + "W"@).last());
}

/// The name of an entry of enumerated values, if its key is a text.
pub open spec fn entry_name(e: (YamlValue, YamlValue)) -> Option<Seq<char>> {
    match e.0 {
        YamlValue::String(s) => Some(s@),
        _ => None,
    }
}

/// An entry whose name starts with `_` is a setting, no value.
pub open spec fn is_setting(name: Seq<char>) -> bool {
    name.len() > 0 && name[0] == '_'
}

/// The value and the description of an entry of enumerated values.
pub struct ValueItem {
    /// The value
    pub value: u64,
    /// The description
    pub description: Seq<char>,
}

/// The value and the description that an entry `[value, description, ..]`
/// gives, if it is one.
pub open spec fn entry_item(e: (YamlValue, YamlValue)) -> Option<ValueItem> {
    match e.1 {
        YamlValue::Array(v) => if v@.len() >= 2 && number_spec(model(v@[0])) is Some && v@[1] is String {
            Some(ValueItem { value: number_spec(model(v@[0]))->0 as u64, description: v@[1]->String_0@ })
        } else {
            None
        },
        _ => None,
    }
}

/// An entry of enumerated values can be read: its key is a text, and,
/// unless it is a setting, its name does not start with a digit and its
/// value is a list of a number and a description.
pub open spec fn entry_ok(e: (YamlValue, YamlValue)) -> bool {
    &&& entry_name(e) is Some
    &&& !is_setting(entry_name(e)->0) ==> {
        &&& entry_name(e)->0.len() > 0
        &&& !is_ascii_digit(entry_name(e)->0[0])
        &&& entry_item(e) is Some
    }
}

/// The entry at `i` describes a value.
pub open spec fn is_value_entry(h: Seq<(YamlValue, YamlValue)>, i: int) -> bool {
    0 <= i < h.len() && !is_setting(entry_name(h[i])->0)
}

/// Every entry can be read, and no two values are the same.
pub open spec fn ev_entries_ok(h: Seq<(YamlValue, YamlValue)>) -> bool {
    &&& forall|i: int| 0 <= i < h.len() ==> entry_ok(#[trigger] h[i])
    &&& forall|i: int, j: int|
        is_value_entry(h, i) && is_value_entry(h, j) && i != j ==> (#[trigger] entry_item(h[i]))->0.value
            != (#[trigger] entry_item(h[j]))->0.value
}

/// `ev` is the enumerated value that entry `e` describes.
#[verifier::opaque]
pub open spec fn describes(e: (YamlValue, YamlValue), ev: EnumeratedValue) -> bool {
    &&& ev.name@ == entry_name(e)->0
    &&& ev.value == Some(entry_item(e)->0.value)
    &&& ev.is_default is None
    &&& opt_chars(ev.description) == if entry_item(e)->0.description.len() == 0 {
        None::<Seq<char>>
    } else {
        Some(entry_item(e)->0.description)
    }
}

/// The values are in strictly increasing order.
pub open spec fn increasing(v: Seq<EnumeratedValue>) -> bool {
    forall|a: int, b: int| 0 <= a < b < v.len() ==> (#[trigger] v[a]).value->0 < (#[trigger] v[b]).value->0
}

/// `ev` is described by one of the entries of `h` among the first `n`.
pub open spec fn from_entries(h: Seq<(YamlValue, YamlValue)>, n: int, ev: EnumeratedValue) -> bool {
    exists|i: int| 0 <= i < n && is_value_entry(h, i) && describes(h[i], ev)
}

/// The value that entry `i` of `h` describes is among `v`.
pub open spec fn covered(h: Seq<(YamlValue, YamlValue)>, i: int, v: Seq<EnumeratedValue>) -> bool {
    exists|k: int| 0 <= k < v.len() && describes(h[i], v[k])
}

/// `v` holds exactly the values that the entries of `h` among the first `n`
/// describe.
pub open spec fn values_of(h: Seq<(YamlValue, YamlValue)>, n: int, v: Seq<EnumeratedValue>) -> bool {
    &&& forall|k: int| 0 <= k < v.len() ==> from_entries(h, n, #[trigger] v[k])
    &&& forall|i: int| 0 <= i < n && is_value_entry(h, i) ==> #[trigger] covered(h, i, v)
}

/// The enumerated value that an entry describes.
fn entry_value(e: &(YamlValue, YamlValue)) -> (r: EnumeratedValue)
    requires
        entry_ok(*e),
        !is_setting(entry_name(*e)->0),
    ensures
        describes(*e, r),
{
    let name = match &e.0 {
        YamlValue::String(s) => s.clone(),
        _ => String::new(),
    };
    let (value, description) = match &e.1 {
        YamlValue::Array(v) => {
            let value = match parse_i64(&v[0]) {
                Some(x) => x as u64,
                None => 0,
            };
            let description = match &v[1] {
                YamlValue::String(s) => s.clone(),
                _ => String::new(),
            };
            (value, description)
        },
        _ => (0, String::new()),
    };
    let b = EnumeratedValue::builder().name(name).value(Some(value)).description(Some(description));
    proof {
        reveal(describes);
    }
    match b.build(VAL_LVL) {
        Ok(ev) => ev,
        Err(_) => {
            proof {
                assert(false);
            }
            EnumeratedValue { name: String::new(), description: None, value: None, is_default: None }
        },
    }
}

/// Inserts `ev` among values in increasing order, keeping the order; no
/// value holds its value yet.
fn insert_in_order(out: &mut Vec<EnumeratedValue>, ev: EnumeratedValue) -> (p: usize)
    requires
        increasing(old(out)@),
        ev.value is Some,
        forall|a: int| 0 <= a < old(out)@.len() ==> (#[trigger] old(out)@[a]).value is Some,
        forall|a: int| 0 <= a < old(out)@.len() ==> (#[trigger] old(out)@[a]).value->0 != ev.value->0,
    ensures
        p <= old(out)@.len(),
        final(out)@ == old(out)@.insert(p as int, ev),
        increasing(final(out)@),
{
    let v = match ev.value {
        Some(x) => x,
        None => 0,
    };
    let mut p: usize = 0;
    while p < out.len() && out[p].value.unwrap_or(0) < v
        invariant
            p <= out@.len(),
            v == ev.value->0,
            forall|a: int| 0 <= a < p ==> (#[trigger] out@[a]).value->0 < v,
            forall|a: int| 0 <= a < out@.len() ==> (#[trigger] out@[a]).value is Some,
        decreases out@.len() - p,
    {
        p += 1;
    }
    let ghost before = out@;
    out.insert(p, ev);
    proof {
        assert(p < before.len() ==> before[p as int].value->0 > v);
        assert forall|a: int, b: int| 0 <= a < b < out@.len() implies (#[trigger] out@[a]).value->0 < (
        #[trigger] out@[b]).value->0 by {
            if b < p {
                assert(out@[a] == before[a] && out@[b] == before[b]);
            } else if b == p {
                assert(out@[a] == before[a]);
            } else if a < p {
                assert(out@[a] == before[a] && out@[b] == before[b - 1]);
                if b - 1 > p {
                    assert(before[p as int].value->0 < before[b - 1].value->0);
                }
            } else if a == p {
                assert(out@[b] == before[b - 1]);
                if b - 1 > p {
                    assert(before[p as int].value->0 < before[b - 1].value->0);
                }
            } else {
                assert(out@[a] == before[a - 1] && out@[b] == before[b - 1]);
            }
        }
    }
    p
}

/// Adding the value of entry `i` at `p` keeps `v` the values of the entries
/// read so far.
proof fn lemma_values_of_insert(h: Seq<(YamlValue, YamlValue)>, i: int, v: Seq<EnumeratedValue>, p: int, ev: EnumeratedValue)
    requires
        0 <= i < h.len(),
        0 <= p <= v.len(),
        is_value_entry(h, i),
        describes(h[i], ev),
        values_of(h, i, v),
    ensures
        values_of(h, i + 1, v.insert(p, ev)),
{
    let w = v.insert(p, ev);
    assert forall|k: int| 0 <= k < w.len() implies from_entries(h, i + 1, #[trigger] w[k]) by {
        if k < p {
            assert(w[k] == v[k]);
            assert(from_entries(h, i, v[k]));
            let j = choose|j: int| 0 <= j < i && is_value_entry(h, j) && describes(h[j], v[k]);
            assert(0 <= j < i + 1 && is_value_entry(h, j) && describes(h[j], w[k]));
        } else if k == p {
            assert(0 <= i < i + 1 && is_value_entry(h, i) && describes(h[i], w[k]));
        } else {
            assert(w[k] == v[k - 1]);
            assert(from_entries(h, i, v[k - 1]));
            let j = choose|j: int| 0 <= j < i && is_value_entry(h, j) && describes(h[j], v[k - 1]);
            assert(0 <= j < i + 1 && is_value_entry(h, j) && describes(h[j], w[k]));
        }
    }
    assert forall|j: int| 0 <= j < i + 1 && is_value_entry(h, j) implies #[trigger] covered(h, j, w) by {
        if j == i {
            assert(0 <= p < w.len() && describes(h[j], w[p]));
        } else {
            assert(covered(h, j, v));
            let k = choose|k: int| 0 <= k < v.len() && describes(h[j], v[k]);
            if k < p {
                assert(w[k] == v[k]);
                assert(0 <= k < w.len() && describes(h[j], w[k]));
            } else {
                assert(w[k + 1] == v[k]);
                assert(0 <= k + 1 < w.len() && describes(h[j], w[k + 1]));
            }
        }
    }
}

/// Passing over a setting keeps `v` the values of the entries read so far.
proof fn lemma_values_of_skip(h: Seq<(YamlValue, YamlValue)>, i: int, v: Seq<EnumeratedValue>)
    requires
        0 <= i < h.len(),
        !is_value_entry(h, i),
        values_of(h, i, v),
    ensures
        values_of(h, i + 1, v),
{
    assert forall|k: int| 0 <= k < v.len() implies from_entries(h, i + 1, #[trigger] v[k]) by {
        assert(from_entries(h, i, v[k]));
        let j = choose|j: int| 0 <= j < i && is_value_entry(h, j) && describes(h[j], v[k]);
        assert(0 <= j < i + 1 && is_value_entry(h, j) && describes(h[j], v[k]));
    }
    assert forall|j: int| 0 <= j < i + 1 && is_value_entry(h, j) implies #[trigger] covered(h, j, v) by {
        assert(j != i);
    }
}

/// Makes enumerated values out of the entries `name: [value, description]`
/// of a patch file, in increasing order of value; entries whose name starts
/// with `_` are settings and are left out.
pub fn make_ev_array(values: &Vec<(YamlValue, YamlValue)>) -> (r: EnumeratedValuesBuilder)
    requires
        ev_entries_ok(values@),
    ensures
        r.name is None && r.usage is None && r.derived_from is None,
        r.values matches Some(v) && increasing(v@) && values_of(values@, values@.len() as int, v@),
{
    let ghost h = values@;
    let mut out: Vec<EnumeratedValue> = Vec::new();
    let mut i: usize = 0;
    while i < values.len()
        invariant
            h == values@,
            i <= h.len(),
            ev_entries_ok(h),
            increasing(out@),
            forall|a: int| 0 <= a < out@.len() ==> (#[trigger] out@[a]).value is Some,
            values_of(h, i as int, out@),
        decreases h.len() - i,
    {
        assert(entry_ok(h[i as int]));
        let is_setting_entry = match &values[i].0 {
            YamlValue::String(s) => {
                let c = crate::text::chars_of(s.as_str());
                c.len() > 0 && c[0] == '_'
            },
            _ => true,
        };
        if !is_setting_entry {
            assert(is_value_entry(h, i as int));
            let ev = entry_value(&values[i]);
            proof {
                reveal(describes);
                assert forall|k: int| 0 <= k < out@.len() implies (#[trigger] out@[k]).value->0 != ev.value->0 by {
                    assert(from_entries(h, i as int, out@[k]));
                    let j = choose|j: int| 0 <= j < i && is_value_entry(h, j) && describes(h[j], out@[k]);
                    assert(entry_item(h[j])->0.value != entry_item(h[i as int])->0.value);
                }
            }
            let ghost before = out@;
            let p = insert_in_order(&mut out, ev);
            proof {
                lemma_values_of_insert(h, i as int, before, p as int, ev);
            }
        } else {
            assert(!is_value_entry(h, i as int));
            proof {
                lemma_values_of_skip(h, i as int, out@);
            }
        }
        i += 1;
    }
    EnumeratedValues::builder().values(out)
}

/// Whether an entry of enumerated values can be read (see [`entry_ok`]),
/// and the value it gives when it is no setting.
fn check_entry(e: &(YamlValue, YamlValue)) -> (r: (bool, Option<u64>))
    ensures
        r.0 == entry_ok(*e),
        r.0 && !is_setting(entry_name(*e)->0) ==> r.1 == Some(entry_item(*e)->0.value),
        r.0 && is_setting(entry_name(*e)->0) ==> r.1 is None,
{
    let name = match &e.0 {
        YamlValue::String(s) => crate::text::chars_of(s.as_str()),
        _ => return (false, None),
    };
    if name.len() > 0 && name[0] == '_' {
        return (true, None);
    }
    if name.len() == 0 || ('0' <= name[0] && name[0] <= '9') {
        return (false, None);
    }
    match &e.1 {
        YamlValue::Array(v) => {
            if v.len() < 2 {
                return (false, None);
            }
            let value = match parse_i64(&v[0]) {
                Some(x) => x,
                None => return (false, None),
            };
            match &v[1] {
                YamlValue::String(_) => (true, Some(value as u64)),
                _ => (false, None),
            }
        },
        _ => (false, None),
    }
}

/// Whether the entries of enumerated values can all be read and give
/// distinct values (see [`ev_entries_ok`]).
pub fn check_ev_entries(values: &Vec<(YamlValue, YamlValue)>) -> (r: bool)
    ensures
        r == ev_entries_ok(values@),
{
    let ghost h = values@;
    let mut seen: Vec<Option<u64>> = Vec::new();
    let mut i: usize = 0;
    while i < values.len()
        invariant
            h == values@,
            i <= h.len(),
            seen@.len() == i,
            forall|k: int| 0 <= k < i ==> entry_ok(#[trigger] h[k]),
            forall|k: int|
                0 <= k < i ==> (#[trigger] seen@[k] is Some <==> is_value_entry(h, k)) && (is_value_entry(h, k)
                    ==> seen@[k] == Some(entry_item(h[k])->0.value)),
            forall|a: int, b: int|
                0 <= a < i && 0 <= b < i && is_value_entry(h, a) && is_value_entry(h, b) && a != b
                    ==> (#[trigger] entry_item(h[a]))->0.value != (#[trigger] entry_item(h[b]))->0.value,
        decreases h.len() - i,
    {
        let (ok, v) = check_entry(&values[i]);
        if !ok {
            return false;
        }
        let mut j: usize = 0;
        while j < i
            invariant
                h == values@,
                i < h.len(),
                j <= i,
                seen@.len() == i,
                entry_ok(h[i as int]),
                !is_setting(entry_name(h[i as int])->0) ==> v == Some(entry_item(h[i as int])->0.value),
                is_setting(entry_name(h[i as int])->0) ==> v is None,
                forall|k: int|
                    0 <= k < i ==> (#[trigger] seen@[k] is Some <==> is_value_entry(h, k)) && (is_value_entry(h, k)
                        ==> seen@[k] == Some(entry_item(h[k])->0.value)),
                v is Some ==> forall|k: int|
                    0 <= k < j && is_value_entry(h, k) ==> (#[trigger] entry_item(h[k]))->0.value != v->0,
            decreases i - j,
        {
            if v.is_some() && seen[j] == v {
                assert(is_value_entry(h, j as int));
                assert(is_value_entry(h, i as int));
                assert(!ev_entries_ok(h));
                return false;
            }
            j += 1;
        }
        seen.push(v);
        i += 1;
    }
    true
}

/// Returns an enumeratedValues Element which is derivedFrom name
pub fn make_derived_enumerated_values(name: &str) -> (r: EnumeratedValues)
    ensures
        r.derived_from matches Some(d) && d@ == name@,
        r.name is None && r.usage is None && r.values@.len() == 0,
{
    let b = EnumeratedValues::builder().derived_from(Some(owned(name)));
    match b.build(VAL_LVL) {
        Ok(e) => e,
        Err(_) => {
            proof {
                assert(false);
            }
            EnumeratedValues { name: None, usage: None, derived_from: Some(owned(name)), values: Vec::new() }
        },
    }
}

/// The integer under the text key `key`, as a value of `h`.
pub open spec fn key_number(h: Seq<(YamlValue, YamlValue)>, key: Seq<char>) -> Option<i64> {
    match get_key_spec(h, key) {
        Some(v) => number_spec(model(v)),
        None => None,
    }
}

/// The text under the text key `key`, as a value of `h`.
pub open spec fn key_text(h: Seq<(YamlValue, YamlValue)>, key: Seq<char>) -> Option<Seq<char>> {
    match get_key_spec(h, key) {
        Some(YamlValue::String(s)) => Some(s@),
        _ => None,
    }
}

/// The access that the text under `key` names.
pub open spec fn key_access(h: Seq<(YamlValue, YamlValue)>, key: Seq<char>) -> Option<Access> {
    match key_text(h, key) {
        Some(t) => Access::from_str_spec(t),
        None => None,
    }
}

/// The register properties that a mapping gives: size, access, reset value
/// and reset mask (numbers cut to their width).
pub open spec fn register_properties_of(h: Seq<(YamlValue, YamlValue)>) -> RegisterProperties {
    RegisterProperties {
        size: match key_number(h, "size"@) {
            Some(v) => Some(v as u32),
            None => None,
        },
        access: key_access(h, "access"@),
        protection: None,
        reset_value: match key_number(h, "resetValue"@) {
            Some(v) => Some(v as u64),
            None => None,
        },
        reset_mask: match key_number(h, "resetMask"@) {
            Some(v) => Some(v as u64),
            None => None,
        },
    }
}

/// The access named by an optional text.
fn access_of(t: Option<&str>) -> (r: Option<Access>)
    ensures
        match t {
            Some(s) => r == Access::from_str_spec(s@),
            None => r is None,
        },
{
    match t {
        Some(s) => Access::parse_str(s),
        None => None,
    }
}

/// The register properties that a mapping of a patch file gives.
pub fn get_register_properties(h: &Vec<(YamlValue, YamlValue)>) -> (r: RegisterProperties)
    ensures
        r == register_properties_of(h@),
{
    let size = match get_i64(h, "size") {
        Some(v) => Some(v as u32),
        None => None,
    };
    let access = access_of(get_str(h, "access"));
    let reset_value = match get_i64(h, "resetValue") {
        Some(v) => Some(v as u64),
        None => None,
    };
    let reset_mask = match get_i64(h, "resetMask") {
        Some(v) => Some(v as u64),
        None => None,
    };
    proof {
        reveal_strlit("size");
        reveal_strlit("access");
        reveal_strlit("resetValue");
        reveal_strlit("resetMask");
    }
    RegisterProperties::new().size(size).access(access).reset_value(reset_value).reset_mask(reset_mask)
}

/// The properties `p` once the setting `f` of a patch file is applied:
/// `size`, `access`, `resetValue` or `resetMask` take the value; other
/// settings change nothing.
pub open spec fn property_set(p: RegisterProperties, f: Seq<char>, val: YamlValue) -> RegisterProperties {
    if f == "size"@ {
        RegisterProperties {
            size: match number_spec(model(val)) {
                Some(v) => Some(v as u32),
                None => None,
            },
            ..p
        }
    } else if f == "access"@ {
        RegisterProperties {
            access: match val {
                YamlValue::String(s) => Access::from_str_spec(s@),
                _ => None,
            },
            ..p
        }
    } else if f == "resetValue"@ {
        RegisterProperties {
            reset_value: match number_spec(model(val)) {
                Some(v) => Some(v as u64),
                None => None,
            },
            ..p
        }
    } else if f == "resetMask"@ {
        RegisterProperties {
            reset_mask: match number_spec(model(val)) {
                Some(v) => Some(v as u64),
                None => None,
            },
            ..p
        }
    } else {
        p
    }
}

/// Modifies one register property after a setting of a patch file: `size`,
/// `access`, `resetValue` or `resetMask`; other settings change nothing.
pub fn modify_register_properties(p: &mut RegisterProperties, f: &str, val: &YamlValue)
    ensures
        *final(p) == property_set(*old(p), f@, *val),
{
    if crate::text::str_eq(f, "size") {
        p.size = match parse_i64(val) {
            Some(v) => Some(v as u32),
            None => None,
        };
    } else if crate::text::str_eq(f, "access") {
        p.access = access_of(val.as_str());
    } else if crate::text::str_eq(f, "resetValue") {
        p.reset_value = match parse_i64(val) {
            Some(v) => Some(v as u64),
            None => None,
        };
    } else if crate::text::str_eq(f, "resetMask") {
        p.reset_mask = match parse_i64(val) {
            Some(v) => Some(v as u64),
            None => None,
        };
    }
}

/// The address block that a mapping describes: it must give an offset, a
/// size and a usage.
pub fn make_address_block(h: &Vec<(YamlValue, YamlValue)>) -> (r: AddressBlock)
    requires
        key_number(h@, "offset"@) is Some,
        key_number(h@, "size"@) is Some,
        key_text(h@, "usage"@) matches Some(u) && AddressBlockUsage::from_str_spec(u) is Some,
    ensures
        r.offset == key_number(h@, "offset"@)->0 as u32,
        r.size == key_number(h@, "size"@)->0 as u32,
        r.usage == AddressBlockUsage::from_str_spec(key_text(h@, "usage"@)->0)->0,
        r.protection is None,
{
    proof {
        reveal_strlit("offset");
        reveal_strlit("size");
        reveal_strlit("usage");
    }
    let offset = match get_i64(h, "offset") {
        Some(v) => v as u32,
        None => 0,
    };
    let size = match get_i64(h, "size") {
        Some(v) => v as u32,
        None => 0,
    };
    let usage = match get_str(h, "usage") {
        Some(u) => match AddressBlockUsage::parse_str(u) {
            Some(x) => x,
            None => AddressBlockUsage::Registers,
        },
        None => AddressBlockUsage::Registers,
    };
    AddressBlock { offset, size, usage, protection: None }
}

/// The interrupt named `iname` that a mapping describes: it must give a
/// value.
pub fn make_interrupt(iname: &str, iadd: &Vec<(YamlValue, YamlValue)>) -> (r: Interrupt)
    requires
        key_number(iadd@, "value"@) is Some,
    ensures
        r.name@ == iname@,
        opt_chars(r.description) == key_text(iadd@, "description"@),
        r.value == key_number(iadd@, "value"@)->0 as u32,
{
    proof {
        reveal_strlit("value");
        reveal_strlit("description");
    }
    let description = match get_str(iadd, "description") {
        Some(d) => Some(owned(d)),
        None => None,
    };
    let value = match get_i64(iadd, "value") {
        Some(v) => v as u32,
        None => 0,
    };
    Interrupt { name: owned(iname), description, value }
}

/// A text, where it is not empty.
pub open spec fn nonempty_chars(o: Option<Seq<char>>) -> Option<Seq<char>> {
    match o {
        Some(t) => if t.len() == 0 {
            None
        } else {
            Some(t)
        },
        None => None,
    }
}

/// The bit range that a mapping gives with both a bit offset and a bit
/// width (numbers cut to 32 bits).
pub open spec fn field_range_of(h: Seq<(YamlValue, YamlValue)>) -> Option<crate::BitRange> {
    match (key_number(h, "bitOffset"@), key_number(h, "bitWidth"@)) {
        (Some(o), Some(w)) => Some(crate::BitRange::offset_width_spec(o as u32, w as u32)),
        _ => None,
    }
}

/// The field named `name` that a mapping describes, once built: its
/// description (if not empty), bit range and access; nothing else.
pub open spec fn new_field_model(h: Seq<(YamlValue, YamlValue)>, name: Seq<char>) -> FieldInfoModel {
    FieldInfoModel {
        name,
        description: nonempty_chars(key_text(h, "description"@)),
        bit_range: field_range_of(h)->0,
        access: key_access(h, "access"@),
        modified_write_values: None,
        write_constraint: None,
        read_action: None,
        enumerated_values: Seq::empty(),
        derived_from: None,
    }
}

/// The field builder that a mapping describes: description and access, then
/// the name, the bit offset and the bit width where it gives them.
pub fn make_field(fadd: &Vec<(YamlValue, YamlValue)>) -> (r: FieldInfoBuilder)
    ensures
        opt_chars(r.description) == key_text(fadd@, "description"@),
        r.access == key_access(fadd@, "access"@),
        opt_chars(r.name) == key_text(fadd@, "name"@),
        ({
            let start = FieldInfoBuilder { description: r.description, access: r.access, name: r.name, ..FieldInfoBuilder::empty() };
            let o = key_number(fadd@, "bitOffset"@);
            let w = key_number(fadd@, "bitWidth"@);
            let after_offset = match o {
                Some(v) => FieldInfoBuilder { bit_offset: Some(v as u32), ..start },
                None => start,
            };
            r == match w {
                Some(v) => match after_offset.bit_offset {
                    Some(off) => FieldInfoBuilder {
                        bit_range: Some(crate::BitRange::offset_width_spec(off, v as u32)),
                        bit_offset: None,
                        ..after_offset
                    },
                    None => FieldInfoBuilder { bit_width: Some(v as u32), ..after_offset },
                },
                None => after_offset,
            }
        }),
{
    proof {
        reveal_strlit("description");
        reveal_strlit("access");
        reveal_strlit("name");
        reveal_strlit("bitOffset");
        reveal_strlit("bitWidth");
    }
    let description = match get_str(fadd, "description") {
        Some(d) => Some(owned(d)),
        None => None,
    };
    let mut fnew = FieldInfo::builder().description(description).access(access_of(get_str(fadd, "access")));
    if let Some(name) = get_str(fadd, "name") {
        fnew = fnew.name(owned(name));
    }
    if let Some(offset) = get_i64(fadd, "bitOffset") {
        fnew = fnew.bit_offset(offset as u32);
    }
    if let Some(width) = get_i64(fadd, "bitWidth") {
        fnew = fnew.bit_width(width as u32);
    }
    fnew
}

/// The cluster builder that a mapping describes: description and default
/// register properties, then the name and the address offset where it gives
/// them.
pub fn make_cluster(cadd: &Vec<(YamlValue, YamlValue)>) -> (r: ClusterInfoBuilder)
    ensures
        opt_chars(r.description) == key_text(cadd@, "description"@),
        r.default_register_properties == register_properties_of(cadd@),
        opt_chars(r.name) == key_text(cadd@, "name"@),
        r.address_offset == match key_number(cadd@, "addressOffset"@) {
            Some(v) => Some(v as u32),
            None => None,
        },
        r.alternate_cluster is None && r.header_struct_name is None && r.children is None && r.derived_from is None,
{
    proof {
        reveal_strlit("description");
        reveal_strlit("name");
        reveal_strlit("addressOffset");
    }
    let description = match get_str(cadd, "description") {
        Some(d) => Some(owned(d)),
        None => None,
    };
    let mut cnew = ClusterInfo::builder().description(description).default_register_properties(
        get_register_properties(cadd),
    );
    if let Some(name) = get_str(cadd, "name") {
        cnew = cnew.name(owned(name));
    }
    if let Some(address_offset) = get_i64(cadd, "addressOffset") {
        cnew = cnew.address_offset(address_offset as u32);
    }
    cnew
}

/// An entry of the fields of a register mapping can be built: a name and a
/// mapping that gives a valid field.
pub open spec fn field_entry_ok(e: (YamlValue, YamlValue)) -> bool {
    match (e.0, e.1) {
        (YamlValue::String(n), YamlValue::Hash(h)) => field_range_of(h@) is Some && new_field_model(h@, n@).validate_spec(
            VAL_LVL,
            Ok(()),
        ),
        _ => false,
    }
}

/// `f` is the field that the entry `e` describes.
pub open spec fn entry_field(e: (YamlValue, YamlValue), f: Field) -> bool {
    match (e.0, e.1) {
        (YamlValue::String(n), YamlValue::Hash(h)) => f matches Field::Single(x) && x@ == new_field_model(h@, n@),
        _ => false,
    }
}

/// The fields that a register mapping lists can all be built.
pub open spec fn register_fields_ok(h: Seq<(YamlValue, YamlValue)>) -> bool {
    match get_key_spec(h, "fields"@) {
        Some(YamlValue::Hash(m)) => forall|i: int| 0 <= i < m@.len() ==> field_entry_ok(#[trigger] m@[i]),
        _ => true,
    }
}

/// `b` is the register builder that a mapping describes: display name,
/// description, alternate group and register, properties and fields, then
/// the name and the address offset where it gives them.
pub open spec fn register_builder_of(h: Seq<(YamlValue, YamlValue)>, b: RegisterInfoBuilder) -> bool {
    &&& opt_chars(b.display_name) == key_text(h, "displayName"@)
    &&& opt_chars(b.description) == key_text(h, "description"@)
    &&& opt_chars(b.alternate_group) == key_text(h, "alternateGroup"@)
    &&& opt_chars(b.alternate_register) == key_text(h, "alternateRegister"@)
    &&& b.properties == register_properties_of(h)
    &&& match get_key_spec(h, "fields"@) {
        Some(YamlValue::Hash(m)) => b.fields matches Some(v) && v@.len() == m@.len() && forall|i: int|
            0 <= i < m@.len() ==> entry_field(m@[i], #[trigger] v@[i]),
        _ => b.fields is None,
    }
    &&& opt_chars(b.name) == key_text(h, "name"@)
    &&& b.address_offset == match key_number(h, "addressOffset"@) {
        Some(v) => Some(v as u32),
        None => None,
    }
    &&& b.datatype is None && b.modified_write_values is None && b.write_constraint is None
    &&& b.read_action is None && b.derived_from is None
}

/// The fields that the entries of a mapping describe.
fn make_fields(m: &Vec<(YamlValue, YamlValue)>) -> (r: Result<Vec<Field>, PatchError>)
    ensures
        r is Ok <==> forall|i: int| 0 <= i < m@.len() ==> field_entry_ok(#[trigger] m@[i]),
        r matches Ok(v) ==> v@.len() == m@.len() && forall|i: int| 0 <= i < m@.len() ==> entry_field(m@[i], #[trigger] v@[i]),
{
    let mut out: Vec<Field> = Vec::new();
    let mut i: usize = 0;
    while i < m.len()
        invariant
            i <= m@.len(),
            out@.len() == i,
            forall|j: int| 0 <= j < i ==> field_entry_ok(#[trigger] m@[j]),
            forall|j: int| 0 <= j < i ==> entry_field(m@[j], #[trigger] out@[j]),
        decreases m@.len() - i,
    {
        let (k, v) = &m[i];
        let (name, h) = match (k, v) {
            (YamlValue::String(n), YamlValue::Hash(h)) => (n, h),
            _ => {
                assert(!field_entry_ok(m@[i as int]));
                return Err(PatchError::Value(owned("fields")));
            },
        };
        proof {
            reveal_strlit("bitOffset");
            reveal_strlit("bitWidth");
            reveal_strlit("description");
            reveal_strlit("access");
        }
        let b = make_field(h).name(name.clone());
        if b.bit_range.is_none() {
            assert(!field_entry_ok(m@[i as int]));
            return Err(PatchError::Value(owned(name.as_str())));
        }
        assert(b.built() == new_field_model(h@, name@));
        match b.build(VAL_LVL) {
            Ok(f) => {
                out.push(Field::Single(f));
            },
            Err(e) => {
                return Err(PatchError::Invalid(e));
            },
        }
        i += 1;
    }
    Ok(out)
}

/// The register builder that a mapping describes (see
/// [`register_builder_of`]); fails where a listed field cannot be built.
pub fn make_register(radd: &Vec<(YamlValue, YamlValue)>) -> (r: Result<RegisterInfoBuilder, PatchError>)
    ensures
        r is Ok <==> register_fields_ok(radd@),
        r matches Ok(b) ==> register_builder_of(radd@, b),
{
    proof {
        reveal_strlit("displayName");
        reveal_strlit("description");
        reveal_strlit("alternateGroup");
        reveal_strlit("alternateRegister");
        reveal_strlit("fields");
        reveal_strlit("name");
        reveal_strlit("addressOffset");
    }
    let fields = match get_hash(radd, "fields") {
        Some(m) => match make_fields(m) {
            Ok(v) => Some(v),
            Err(e) => return Err(e),
        },
        None => None,
    };
    let mut rnew = RegisterInfo::builder().display_name(owned_text(get_str(radd, "displayName"))).description(
        owned_text(get_str(radd, "description")),
    ).alternate_group(owned_text(get_str(radd, "alternateGroup"))).alternate_register(
        owned_text(get_str(radd, "alternateRegister")),
    ).properties(get_register_properties(radd)).fields(fields);
    if let Some(name) = get_str(radd, "name") {
        rnew = rnew.name(owned(name));
    }
    if let Some(address_offset) = get_i64(radd, "addressOffset") {
        rnew = rnew.address_offset(address_offset as u32);
    }
    Ok(rnew)
}

/// An owned copy of an optional text.
pub fn owned_text(t: Option<&str>) -> (r: Option<String>)
    ensures
        opt_chars(r) == match t {
            Some(s) => Some(s@),
            None => None,
        },
{
    match t {
        Some(s) => Some(owned(s)),
        None => None,
    }
}

} // verus!
