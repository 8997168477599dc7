//! Applying the edits of a patch file to a device: the patch is read into
//! a list of edits, which are then applied in turn.
use vstd::prelude::*;

use crate::patch::device::{
    add_peripheral, added_result, copied_result, copy_peripheral, cpu_result, delete_peripherals, deleted_result,
    derive_peripheral, derived_peripheral, find_peripheral, modified_result, modify_cpu, modify_peripheral, named_at,
    process_peripheral, processed_result, rebase_peripheral, rebased, rebased_result, rederived,
};
use crate::patch::error::PatchError;
use crate::patch::make::{modify_register_properties, property_set};
use crate::patch::yaml::{get_key, get_key_spec, model, number_spec, parse_i64, YamlValue};
use crate::text::{owned, str_eq};
use crate::{Device, Peripheral, PeripheralInfo};

verus! {

/// One edit that a patch file asks of a device.
pub enum DeviceEdit<'a> {
    /// Delete the peripherals that a pattern matches
    DeletePeripheral(&'a String),
    /// Copy a peripheral
    CopyPeripheral(&'a String, &'a Vec<(YamlValue, YamlValue)>),
    /// Modify the cpu
    ModifyCpu(&'a Vec<(YamlValue, YamlValue)>),
    /// Modify the peripherals that a pattern matches
    ModifyPeripheral(&'a String, &'a Vec<(YamlValue, YamlValue)>),
    /// Rename the device
    SetName(&'a String),
    /// Set the version of the device
    SetVersion(&'a YamlValue),
    /// Set the description of the device
    SetDescription(&'a YamlValue),
    /// Set the bus width of the device
    SetWidth(&'a YamlValue),
    /// Modify a default register property of the device
    ModifyProperty(&'a String, &'a YamlValue),
    /// A setting of the device that is not supported
    Unsupported(&'a String),
    /// Add a peripheral
    AddPeripheral(&'a String, &'a Vec<(YamlValue, YamlValue)>),
    /// Make a peripheral derive from another
    DerivePeripheral(&'a String, &'a String),
    /// Move the registers of a peripheral to another
    RebasePeripheral(&'a String, &'a String),
    /// Process the peripherals that a pattern matches
    ProcessPeripheral(&'a String, &'a Vec<(YamlValue, YamlValue)>),
}

/// The parts of a device mapping whose entries ask edits.
#[derive(Clone, Copy)]
pub enum DeviceSection {
    /// `_copy`
    Copy,
    /// `_modify`
    Modify,
    /// `_add`
    Add,
    /// `_derive`
    Derive,
    /// `_rebase`
    Rebase,
    /// The entries that name peripherals
    Peripherals,
}

/// Two lists of edits one after the other, where both could be read.
pub open spec fn both<'a>(a: Option<Seq<DeviceEdit<'a>>>, b: Option<Seq<DeviceEdit<'a>>>) -> Option<Seq<DeviceEdit<'a>>> {
    match (a, b) {
        (Some(x), Some(y)) => Some(x + y),
        _ => None,
    }
}

/// The deletions that a value asks: one per text, of a list or alone.
pub open spec fn delete_list<'a>(items: Seq<YamlValue>) -> Seq<DeviceEdit<'a>>
    decreases items.len(),
{
    if items.len() == 0 {
        Seq::empty()
    } else {
        delete_list(items.drop_last()) + match items.last() {
            YamlValue::String(t) => seq![DeviceEdit::DeletePeripheral(&t)],
            _ => Seq::empty(),
        }
    }
}

/// The deletions that the value under `_delete` asks.
pub open spec fn deletions<'a>(v: Option<YamlValue>) -> Seq<DeviceEdit<'a>> {
    match v {
        Some(YamlValue::String(t)) => seq![DeviceEdit::DeletePeripheral(&t)],
        Some(YamlValue::Array(a)) => delete_list(a@),
        _ => Seq::empty(),
    }
}

/// The modifications of the peripherals that the entries list: each maps a
/// pattern to a mapping.
pub open spec fn modify_pairs<'a>(entries: Seq<(YamlValue, YamlValue)>) -> Option<Seq<DeviceEdit<'a>>>
    decreases entries.len(),
{
    if entries.len() == 0 {
        Some(Seq::empty())
    } else {
        both(
            modify_pairs(entries.drop_last()),
            match entries.last() {
                (YamlValue::String(t), YamlValue::Hash(h)) => Some(seq![DeviceEdit::ModifyPeripheral(&t, &h)]),
                _ => None,
            },
        )
    }
}

/// The settings of a device that are not supported.
pub open spec fn unsupported_setting(k: Seq<char>) -> bool {
    ||| k == "vendor"@
    ||| k == "vendorID"@
    ||| k == "series"@
    ||| k == "licenseText"@
    ||| k == "headerSystemFilename"@
    ||| k == "headerDefinitionsPrefix"@
    ||| k == "addressUnitBits"@
}

/// The default register properties of a device that can be set.
pub open spec fn property_setting(k: Seq<char>) -> bool {
    ||| k == "size"@
    ||| k == "access"@
    ||| k == "protection"@
    ||| k == "resetValue"@
    ||| k == "resetMask"@
}

/// The edits that one entry of `_modify` asks.
pub open spec fn modify_entry<'a>(e: (YamlValue, YamlValue)) -> Option<Seq<DeviceEdit<'a>>> {
    match e.0 {
        YamlValue::String(k) => if k@ == "cpu"@ {
            match e.1 {
                YamlValue::Hash(h) => Some(seq![DeviceEdit::ModifyCpu(&h)]),
                _ => None,
            }
        } else if k@ == "_peripherals"@ {
            match e.1 {
                YamlValue::Hash(h) => modify_pairs(h@),
                _ => None,
            }
        } else if unsupported_setting(k@) {
            Some(seq![DeviceEdit::Unsupported(&k)])
        } else if k@ == "name"@ {
            match e.1 {
                YamlValue::String(t) => Some(seq![DeviceEdit::SetName(&t)]),
                _ => None,
            }
        } else if k@ == "version"@ {
            Some(seq![DeviceEdit::SetVersion(&e.1)])
        } else if k@ == "description"@ {
            Some(seq![DeviceEdit::SetDescription(&e.1)])
        } else if k@ == "width"@ {
            Some(seq![DeviceEdit::SetWidth(&e.1)])
        } else if property_setting(k@) {
            Some(seq![DeviceEdit::ModifyProperty(&k, &e.1)])
        } else {
            match e.1 {
                YamlValue::Hash(h) => Some(seq![DeviceEdit::ModifyPeripheral(&k, &h)]),
                _ => None,
            }
        },
        _ => None,
    }
}

/// The edits that one entry of a section asks.
pub open spec fn device_entry<'a>(e: (YamlValue, YamlValue), sec: DeviceSection) -> Option<Seq<DeviceEdit<'a>>> {
    match sec {
        DeviceSection::Copy => match (e.0, e.1) {
            (YamlValue::String(t), YamlValue::Hash(h)) => Some(seq![DeviceEdit::CopyPeripheral(&t, &h)]),
            _ => None,
        },
        DeviceSection::Modify => modify_entry(e),
        DeviceSection::Add => match (e.0, e.1) {
            (YamlValue::String(t), YamlValue::Hash(h)) => Some(seq![DeviceEdit::AddPeripheral(&t, &h)]),
            _ => None,
        },
        DeviceSection::Derive => match (e.0, e.1) {
            (YamlValue::String(t), YamlValue::String(d)) => Some(seq![DeviceEdit::DerivePeripheral(&t, &d)]),
            _ => None,
        },
        DeviceSection::Rebase => match (e.0, e.1) {
            (YamlValue::String(t), YamlValue::String(d)) => Some(seq![DeviceEdit::RebasePeripheral(&t, &d)]),
            _ => None,
        },
        DeviceSection::Peripherals => match e.0 {
            YamlValue::String(t) => if t@.len() > 0 && t@[0] == '_' {
                Some(Seq::empty())
            } else {
                match e.1 {
                    YamlValue::Hash(h) => Some(seq![DeviceEdit::ProcessPeripheral(&t, &h)]),
                    _ => None,
                }
            },
            _ => None,
        },
    }
}

/// The edits that the entries of a section ask, in order.
#[verifier::opaque]
pub open spec fn device_section<'a>(entries: Seq<(YamlValue, YamlValue)>, sec: DeviceSection) -> Option<Seq<DeviceEdit<'a>>>
    decreases entries.len(),
{
    if entries.len() == 0 {
        Some(Seq::empty())
    } else {
        both(device_section(entries.drop_last(), sec), device_entry(entries.last(), sec))
    }
}

/// The entries of a value that is a mapping, none else.
pub open spec fn entries_in(v: Option<YamlValue>) -> Seq<(YamlValue, YamlValue)> {
    match v {
        Some(YamlValue::Hash(m)) => m@,
        _ => Seq::empty(),
    }
}

/// The edits of the section under `key`.
pub open spec fn section_at<'a>(h: Seq<(YamlValue, YamlValue)>, key: Seq<char>, sec: DeviceSection) -> Option<Seq<DeviceEdit<'a>>> {
    device_section(entries_in(get_key_spec(h, key)), sec)
}

/// The edits that the mapping `h` of a device asks, in the order in which
/// they are applied: deletions, copies (which need a `_path`), then
/// modifications, additions, derivations, rebases, and the peripherals
/// themselves. `None` where a part has not the expected kind.
pub open spec fn device_edits<'a>(h: Seq<(YamlValue, YamlValue)>) -> Option<Seq<DeviceEdit<'a>>> {
    if entries_in(get_key_spec(h, "_copy"@)).len() > 0 && !(get_key_spec(h, "_path"@) matches Some(YamlValue::String(_))) {
        None
    } else {
        both(early_edits(h), late_edits(h))
    }
}

/// The deletions, copies and modifications that a device mapping asks.
pub open spec fn early_edits<'a>(h: Seq<(YamlValue, YamlValue)>) -> Option<Seq<DeviceEdit<'a>>> {
    both(
        Some(deletions(get_key_spec(h, "_delete"@))),
        both(section_at(h, "_copy"@, DeviceSection::Copy), section_at(h, "_modify"@, DeviceSection::Modify)),
    )
}

/// The additions, derivations, rebases and processed peripherals that a
/// device mapping asks.
pub open spec fn late_edits<'a>(h: Seq<(YamlValue, YamlValue)>) -> Option<Seq<DeviceEdit<'a>>> {
    both(
        section_at(h, "_add"@, DeviceSection::Add),
        both(
            section_at(h, "_derive"@, DeviceSection::Derive),
            both(section_at(h, "_rebase"@, DeviceSection::Rebase), device_section(h, DeviceSection::Peripherals)),
        ),
    )
}

/// A value held by reference, as a value.
pub open spec fn value_of(v: Option<&YamlValue>) -> Option<YamlValue> {
    match v {
        Some(y) => Some(*y),
        None => None,
    }
}

proof fn lemma_pairs_stop(s: Seq<(YamlValue, YamlValue)>, j: int)
    requires
        0 <= j <= s.len(),
        modify_pairs(s.take(j)) is None,
    ensures
        modify_pairs(s) is None,
    decreases s.len() - j,
{
    if j < s.len() {
        assert(s.take(j + 1).drop_last() =~= s.take(j));
        lemma_pairs_stop(s, j + 1);
    } else {
        assert(s.take(j) =~= s);
    }
}

proof fn lemma_section_stop(s: Seq<(YamlValue, YamlValue)>, sec: DeviceSection, j: int)
    requires
        0 <= j <= s.len(),
        device_section(s.take(j), sec) is None,
    ensures
        device_section(s, sec) is None,
    decreases s.len() - j,
{
    reveal(device_section);
    if j < s.len() {
        assert(s.take(j + 1).drop_last() =~= s.take(j));
        lemma_section_stop(s, sec, j + 1);
    } else {
        assert(s.take(j) =~= s);
    }
}

/// Appends the deletions that the items of a list ask.
fn push_delete_list<'a>(out: &mut Vec<DeviceEdit<'a>>, items: &'a Vec<YamlValue>)
    ensures
        final(out)@ == old(out)@ + delete_list(items@),
{
    let ghost start = out@;
    let mut i: usize = 0;
    while i < items.len()
        invariant
            i <= items@.len(),
            out@ == start + delete_list::<'a>(items@.take(i as int)),
        decreases items@.len() - i,
    {
        let ghost t = items@.take(i + 1);
        assert(t.drop_last() =~= items@.take(i as int));
        assert(t.last() == items@[i as int]);
        match &items[i] {
            YamlValue::String(x) => {
                out.push(DeviceEdit::DeletePeripheral(x));
            },
            _ => {},
        }
        i += 1;
        assert(out@ =~= start + delete_list::<'a>(items@.take(i as int)));
    }
    assert(items@.take(items@.len() as int) =~= items@);
}

/// Appends the deletions that the value under `_delete` asks.
fn push_deletions<'a>(out: &mut Vec<DeviceEdit<'a>>, v: Option<&'a YamlValue>)
    ensures
        final(out)@ == old(out)@ + deletions::<'a>(value_of(v)),
{
    match v {
        Some(YamlValue::String(t)) => {
            out.push(DeviceEdit::DeletePeripheral(t));
            assert(out@ =~= old(out)@ + seq![DeviceEdit::DeletePeripheral(t)]);
        },
        Some(YamlValue::Array(a)) => {
            push_delete_list(out, a);
        },
        _ => {
            assert(out@ =~= old(out)@ + Seq::<DeviceEdit>::empty());
        },
    }
}

/// Appends the modifications of the peripherals that the entries list
/// (see [`modify_pairs`]); `false` where they cannot be read.
fn push_modify_pairs<'a>(out: &mut Vec<DeviceEdit<'a>>, entries: &'a Vec<(YamlValue, YamlValue)>) -> (r: bool)
    ensures
        r == modify_pairs(entries@) is Some,
        r ==> final(out)@ == old(out)@ + modify_pairs(entries@)->0,
{
    let ghost start = out@;
    let mut i: usize = 0;
    while i < entries.len()
        invariant
            i <= entries@.len(),
            modify_pairs::<'a>(entries@.take(i as int)) is Some,
            out@ == start + modify_pairs(entries@.take(i as int))->0,
        decreases entries@.len() - i,
    {
        let ghost t = entries@.take(i + 1);
        assert(t.drop_last() =~= entries@.take(i as int));
        assert(t.last() == entries@[i as int]);
        match (&entries[i].0, &entries[i].1) {
            (YamlValue::String(x), YamlValue::Hash(h)) => {
                out.push(DeviceEdit::ModifyPeripheral(x, h));
            },
            _ => {
                proof {
                    lemma_pairs_stop(entries@, i + 1);
                }
                return false;
            },
        }
        i += 1;
        assert(out@ =~= start + modify_pairs::<'a>(entries@.take(i as int))->0);
    }
    assert(entries@.take(entries@.len() as int) =~= entries@);
    true
}

/// Whether `k` names a setting that is not supported.
fn is_unsupported(k: &str) -> (r: bool)
    ensures
        r == unsupported_setting(k@),
{
    str_eq(k, "vendor") || str_eq(k, "vendorID") || str_eq(k, "series") || str_eq(k, "licenseText") || str_eq(
        k,
        "headerSystemFilename",
    ) || str_eq(k, "headerDefinitionsPrefix") || str_eq(k, "addressUnitBits")
}

/// Whether `k` names a default register property.
fn is_property(k: &str) -> (r: bool)
    ensures
        r == property_setting(k@),
{
    str_eq(k, "size") || str_eq(k, "access") || str_eq(k, "protection") || str_eq(k, "resetValue") || str_eq(
        k,
        "resetMask",
    )
}

/// Appends the edits that one entry of `_modify` asks (see
/// [`modify_entry`]); `false` where it cannot be read.
fn push_modify_entry<'a>(out: &mut Vec<DeviceEdit<'a>>, e: &'a (YamlValue, YamlValue)) -> (r: bool)
    ensures
        r == modify_entry(*e) is Some,
        r ==> final(out)@ == old(out)@ + modify_entry(*e)->0,
{
    proof {
        reveal_strlit("cpu");
        reveal_strlit("_peripherals");
        reveal_strlit("name");
        reveal_strlit("version");
        reveal_strlit("description");
        reveal_strlit("width");
    }
    let k = match &e.0 {
        YamlValue::String(k) => k,
        _ => return false,
    };
    let x = if str_eq(k.as_str(), "cpu") {
        match &e.1 {
            YamlValue::Hash(h) => DeviceEdit::ModifyCpu(h),
            _ => return false,
        }
    } else if str_eq(k.as_str(), "_peripherals") {
        return match &e.1 {
            YamlValue::Hash(h) => push_modify_pairs(out, h),
            _ => false,
        };
    } else if is_unsupported(k.as_str()) {
        DeviceEdit::Unsupported(k)
    } else if str_eq(k.as_str(), "name") {
        match &e.1 {
            YamlValue::String(t) => DeviceEdit::SetName(t),
            _ => return false,
        }
    } else if str_eq(k.as_str(), "version") {
        DeviceEdit::SetVersion(&e.1)
    } else if str_eq(k.as_str(), "description") {
        DeviceEdit::SetDescription(&e.1)
    } else if str_eq(k.as_str(), "width") {
        DeviceEdit::SetWidth(&e.1)
    } else if is_property(k.as_str()) {
        DeviceEdit::ModifyProperty(k, &e.1)
    } else {
        match &e.1 {
            YamlValue::Hash(h) => DeviceEdit::ModifyPeripheral(k, h),
            _ => return false,
        }
    };
    out.push(x);
    assert(out@ =~= old(out)@ + seq![x]);
    true
}

/// Appends the edits that one entry of a section asks (see
/// [`device_entry`]); `false` where it cannot be read.
fn push_device_entry<'a>(out: &mut Vec<DeviceEdit<'a>>, e: &'a (YamlValue, YamlValue), sec: DeviceSection) -> (r: bool)
    ensures
        r == device_entry(*e, sec) is Some,
        r ==> final(out)@ == old(out)@ + device_entry(*e, sec)->0,
{
    let x = match sec {
        DeviceSection::Modify => {
            return push_modify_entry(out, e);
        },
        DeviceSection::Copy => match (&e.0, &e.1) {
            (YamlValue::String(t), YamlValue::Hash(h)) => DeviceEdit::CopyPeripheral(t, h),
            _ => return false,
        },
        DeviceSection::Add => match (&e.0, &e.1) {
            (YamlValue::String(t), YamlValue::Hash(h)) => DeviceEdit::AddPeripheral(t, h),
            _ => return false,
        },
        DeviceSection::Derive => match (&e.0, &e.1) {
            (YamlValue::String(t), YamlValue::String(d)) => DeviceEdit::DerivePeripheral(t, d),
            _ => return false,
        },
        DeviceSection::Rebase => match (&e.0, &e.1) {
            (YamlValue::String(t), YamlValue::String(d)) => DeviceEdit::RebasePeripheral(t, d),
            _ => return false,
        },
        DeviceSection::Peripherals => match &e.0 {
            YamlValue::String(t) => {
                let c = crate::text::chars_of(t.as_str());
                if c.len() > 0 && c[0] == '_' {
                    assert(out@ =~= old(out)@ + Seq::<DeviceEdit>::empty());
                    return true;
                }
                match &e.1 {
                    YamlValue::Hash(h) => DeviceEdit::ProcessPeripheral(t, h),
                    _ => return false,
                }
            },
            _ => return false,
        },
    };
    out.push(x);
    assert(out@ =~= old(out)@ + seq![x]);
    true
}

/// Appends the edits that the entries of a section ask (see
/// [`device_section`]); `false` where they cannot be read.
fn push_device_section<'a>(out: &mut Vec<DeviceEdit<'a>>, entries: &'a Vec<(YamlValue, YamlValue)>, sec: DeviceSection) -> (r: bool)
    ensures
        r == device_section(entries@, sec) is Some,
        r ==> final(out)@ == old(out)@ + device_section(entries@, sec)->0,
{
    reveal(device_section);
    let ghost start = out@;
    let mut i: usize = 0;
    while i < entries.len()
        invariant
            i <= entries@.len(),
            device_section::<'a>(entries@.take(i as int), sec) is Some,
            out@ == start + device_section(entries@.take(i as int), sec)->0,
        decreases entries@.len() - i,
    {
        reveal(device_section);
        let ghost t = entries@.take(i + 1);
        assert(t.drop_last() =~= entries@.take(i as int));
        assert(t.last() == entries@[i as int]);
        if !push_device_entry(out, &entries[i], sec) {
            proof {
                lemma_section_stop(entries@, sec, i + 1);
            }
            return false;
        }
        i += 1;
        assert(out@ =~= start + device_section::<'a>(entries@.take(i as int), sec)->0);
    }
    assert(entries@.take(entries@.len() as int) =~= entries@);
    true
}

/// Appends the edits of the section under a value (see [`entries_in`]);
/// `false` where they cannot be read.
fn push_section_in<'a>(out: &mut Vec<DeviceEdit<'a>>, v: Option<&'a YamlValue>, sec: DeviceSection) -> (r: bool)
    ensures
        r == device_section(entries_in(value_of(v)), sec) is Some,
        r ==> final(out)@ == old(out)@ + device_section(entries_in(value_of(v)), sec)->0,
{
    match v {
        Some(YamlValue::Hash(m)) => push_device_section(out, m, sec),
        _ => {
            reveal(device_section);
            assert(entries_in(value_of(v)) =~= Seq::<(YamlValue, YamlValue)>::empty());
            assert(out@ =~= old(out)@ + Seq::<DeviceEdit>::empty());
            true
        },
    }
}

/// Appends the edits of [`early_edits`]; `false` where they cannot be read.
fn push_early<'a>(out: &mut Vec<DeviceEdit<'a>>, h: &'a Vec<(YamlValue, YamlValue)>) -> (r: bool)
    ensures
        r == early_edits(h@) is Some,
        r ==> final(out)@ == old(out)@ + early_edits(h@)->0,
{
    proof {
        reveal_strlit("_delete");
        reveal_strlit("_copy");
        reveal_strlit("_modify");
    }
    let ghost p0 = out@;
    push_deletions(out, get_key(h, "_delete"));
    let ghost p1 = out@;
    if !push_section_in(out, get_key(h, "_copy"), DeviceSection::Copy) {
        return false;
    }
    let ghost p2 = out@;
    if !push_section_in(out, get_key(h, "_modify"), DeviceSection::Modify) {
        return false;
    }
    proof {
        let a = p1.skip(p0.len() as int);
        let b = p2.skip(p1.len() as int);
        let c = out@.skip(p2.len() as int);
        assert(p1 =~= p0 + a);
        assert(p2 =~= p1 + b);
        assert(out@ =~= p2 + c);
        assert(out@ =~= p0 + (a + (b + c)));
    }
    true
}

/// Appends the edits of [`late_edits`]; `false` where they cannot be read.
fn push_late<'a>(out: &mut Vec<DeviceEdit<'a>>, h: &'a Vec<(YamlValue, YamlValue)>) -> (r: bool)
    ensures
        r == late_edits(h@) is Some,
        r ==> final(out)@ == old(out)@ + late_edits(h@)->0,
{
    proof {
        reveal_strlit("_add");
        reveal_strlit("_derive");
        reveal_strlit("_rebase");
    }
    let ghost p0 = out@;
    if !push_section_in(out, get_key(h, "_add"), DeviceSection::Add) {
        return false;
    }
    let ghost p1 = out@;
    if !push_section_in(out, get_key(h, "_derive"), DeviceSection::Derive) {
        return false;
    }
    let ghost p2 = out@;
    if !push_section_in(out, get_key(h, "_rebase"), DeviceSection::Rebase) {
        return false;
    }
    let ghost p3 = out@;
    if !push_device_section(out, h, DeviceSection::Peripherals) {
        return false;
    }
    proof {
        let a = p1.skip(p0.len() as int);
        let b = p2.skip(p1.len() as int);
        let c = p3.skip(p2.len() as int);
        let d = out@.skip(p3.len() as int);
        assert(p1 =~= p0 + a);
        assert(p2 =~= p1 + b);
        assert(p3 =~= p2 + c);
        assert(out@ =~= p3 + d);
        assert(out@ =~= p0 + (a + (b + (c + d))));
    }
    true
}

/// Reads the edits that the mapping `h` of a device asks (see
/// [`device_edits`]); `None` where a part has not the expected kind.
pub fn device_edits_of<'a>(h: &'a Vec<(YamlValue, YamlValue)>) -> (r: Option<Vec<DeviceEdit<'a>>>)
    ensures
        match device_edits(h@) {
            Some(es) => r matches Some(v) && v@ == es,
            None => r is None,
        },
{
    proof {
        reveal_strlit("_copy");
        reveal_strlit("_path");
    }
    let has_copies = match get_key(h, "_copy") {
        Some(YamlValue::Hash(m)) => m.len() > 0,
        _ => false,
    };
    assert(has_copies == (entries_in(get_key_spec(h@, "_copy"@)).len() > 0));
    if has_copies {
        match get_key(h, "_path") {
            Some(YamlValue::String(_)) => {},
            _ => return None,
        }
    }
    let mut out: Vec<DeviceEdit<'a>> = Vec::new();
    if !push_early(&mut out, h) {
        return None;
    }
    let ghost p0 = out@;
    if !push_late(&mut out, h) {
        return None;
    }
    assert(out@ =~= early_edits(h@)->0 + late_edits(h@)->0);
    Some(out)
}

// ---------------------------------------------------------------------------
// Applying the edits
// ---------------------------------------------------------------------------

/// What making `pname` derive from `pderive` gives, both being peripherals
/// of `a` (see [`derive_peripheral`]).
pub open spec fn derived_result(a: Device, pname: Seq<char>, pderive: Seq<char>, b: Device) -> bool {
    &&& b == (Device { peripherals: b.peripherals, ..a })
    &&& b.peripherals@.len() == a.peripherals@.len()
    &&& exists|i: int|
        named_at(a.peripherals@, pname, i) && forall|k: int|
            0 <= k < a.peripherals@.len() ==> if k == i {
                derived_peripheral(a.peripherals@[k], #[trigger] b.peripherals@[k], pderive)
            } else {
                rederived(a.peripherals@[k], b.peripherals@[k], pname, pderive)
            }
}

/// What applying edit `e` to device `a` gives: `b`, where it succeeds when
/// `ok`; each edit as the function that makes it states.
pub open spec fn dedit_result(a: Device, e: DeviceEdit, update_fields: bool, b: Device, ok: bool) -> bool {
    match e {
        DeviceEdit::DeletePeripheral(x) => deleted_result(a, x@, b, ok),
        DeviceEdit::CopyPeripheral(x, h) => copied_result(a, x@, h@, b, ok),
        DeviceEdit::ModifyCpu(h) => cpu_result(a, h@, b, ok),
        DeviceEdit::ModifyPeripheral(x, h) => modified_result(a, x@, h@, b, ok),
        DeviceEdit::SetName(t) => ok && b.name@ == t@ && b == (Device { name: b.name, ..a }),
        DeviceEdit::SetVersion(v) => ok && match *v {
            YamlValue::String(t) => b.version@ == t@ && b == (Device { version: b.version, ..a }),
            _ => b == a,
        },
        DeviceEdit::SetDescription(v) => ok && match *v {
            YamlValue::String(t) => b.description@ == t@ && b == (Device { description: b.description, ..a }),
            _ => b == a,
        },
        DeviceEdit::SetWidth(v) => ok && match number_spec(model(*v)) {
            Some(n) => b == (Device { width: n as u32, ..a }),
            None => b == a,
        },
        DeviceEdit::ModifyProperty(k, v) => ok && b == (Device {
            default_register_properties: property_set(a.default_register_properties, k@, *v),
            ..a
        }),
        DeviceEdit::Unsupported(_) => !ok && b == a,
        DeviceEdit::AddPeripheral(x, h) => added_result(a, x@, h@, b, ok),
        DeviceEdit::DerivePeripheral(x, d) => if (exists|i: int| named_at(a.peripherals@, x@, i)) && (exists|i: int|
            named_at(a.peripherals@, d@, i)) {
            ok && derived_result(a, x@, d@, b)
        } else {
            !ok && b == a
        },
        DeviceEdit::RebasePeripheral(x, d) => rebased_result(a, x@, d@, b, ok),
        DeviceEdit::ProcessPeripheral(x, h) => processed_result(a, x@, h@, update_fields, b, ok),
    }
}

/// Applying `es` in turn to `a` gives `b`, all succeeding when `ok`; where
/// one fails, `b` is what it left and none after it is applied.
pub open spec fn dedits_applied(a: Device, es: Seq<DeviceEdit>, update_fields: bool, b: Device, ok: bool) -> bool
    decreases es.len(),
{
    if es.len() == 0 {
        ok && b == a
    } else {
        exists|m: Device, ok1: bool|
            {
                &&& dedit_result(a, es[0], update_fields, m, ok1)
                &&& if ok1 {
                    dedits_applied(m, es.skip(1), update_fields, b, ok)
                } else {
                    !ok && b == m
                }
            }
    }
}

/// Applies one edit to the device.
pub fn apply_dedit(dev: &mut Device, e: &DeviceEdit, update_fields: bool) -> (r: Result<(), PatchError>)
    ensures
        dedit_result(*old(dev), *e, update_fields, *final(dev), r is Ok),
{
    match e {
        DeviceEdit::DeletePeripheral(x) => delete_peripherals(dev, x.as_str()),
        DeviceEdit::CopyPeripheral(x, h) => copy_peripheral(dev, x.as_str(), h),
        DeviceEdit::ModifyCpu(h) => modify_cpu(dev, h),
        DeviceEdit::ModifyPeripheral(x, h) => modify_peripheral(dev, x.as_str(), h),
        DeviceEdit::SetName(t) => {
            dev.name = owned(t.as_str());
            Ok(())
        },
        DeviceEdit::SetVersion(v) => {
            if let YamlValue::String(t) = v {
                dev.version = owned(t.as_str());
            }
            Ok(())
        },
        DeviceEdit::SetDescription(v) => {
            if let YamlValue::String(t) = v {
                dev.description = owned(t.as_str());
            }
            Ok(())
        },
        DeviceEdit::SetWidth(v) => {
            if let Some(n) = parse_i64(v) {
                dev.width = n as u32;
            }
            Ok(())
        },
        DeviceEdit::ModifyProperty(k, v) => {
            modify_register_properties(&mut dev.default_register_properties, k.as_str(), v);
            Ok(())
        },
        DeviceEdit::Unsupported(k) => Err(PatchError::Unsupported(owned(k.as_str()))),
        DeviceEdit::AddPeripheral(x, h) => add_peripheral(dev, x.as_str(), h),
        DeviceEdit::DerivePeripheral(x, d) => {
            let found_name = find_peripheral(&dev.peripherals, x.as_str()).is_some();
            let found_source = find_peripheral(&dev.peripherals, d.as_str()).is_some();
            if !found_name {
                return Err(PatchError::NotFound(owned(x.as_str())));
            }
            if !found_source {
                return Err(PatchError::NotFound(owned(d.as_str())));
            }
            derive_peripheral(dev, x.as_str(), d.as_str());
            Ok(())
        },
        DeviceEdit::RebasePeripheral(x, d) => rebase_peripheral(dev, x.as_str(), d.as_str()),
        DeviceEdit::ProcessPeripheral(x, h) => process_peripheral(dev, x.as_str(), h, update_fields),
    }
}

/// Extending a chain of applied edits by one that succeeds or fails.
proof fn lemma_dedits_push(a: Device, es: Seq<DeviceEdit>, u: bool, m: Device, e: DeviceEdit, b: Device, ok: bool)
    requires
        dedits_applied(a, es, u, m, true),
        dedit_result(m, e, u, b, ok),
    ensures
        ok ==> dedits_applied(a, es.push(e), u, b, true),
        !ok ==> dedits_applied(a, es.push(e), u, b, false),
    decreases es.len(),
{
    let t = es.push(e);
    if es.len() == 0 {
        assert(t.skip(1) =~= Seq::<DeviceEdit>::empty());
        assert(t[0] == e);
        if ok {
            assert(dedits_applied(b, t.skip(1), u, b, true));
            assert(dedit_result(a, t[0], u, b, ok) && dedits_applied(b, t.skip(1), u, b, true));
        } else {
            assert(dedit_result(a, t[0], u, b, false) && b == b);
        }
    } else {
        let (x, k) = choose|x: Device, k: bool|
            dedit_result(a, es[0], u, x, k) && if k {
                dedits_applied(x, es.skip(1), u, m, true)
            } else {
                !true && m == x
            };
        assert(k);
        lemma_dedits_push(x, es.skip(1), u, m, e, b, ok);
        assert(t.skip(1) =~= es.skip(1).push(e));
        assert(t[0] == es[0]);
        assert(dedit_result(a, t[0], u, x, k));
    }
}

/// A chain that failed stays failed whatever edits follow: they are not
/// applied.
proof fn lemma_dedits_prefix_fail(a: Device, es: Seq<DeviceEdit>, all: Seq<DeviceEdit>, u: bool, b: Device)
    requires
        dedits_applied(a, es, u, b, false),
        es.len() <= all.len(),
        all.take(es.len() as int) == es,
    ensures
        dedits_applied(a, all, u, b, false),
    decreases es.len(),
{
    if es.len() > 0 {
        let (x, k) = choose|x: Device, k: bool|
            dedit_result(a, es[0], u, x, k) && if k {
                dedits_applied(x, es.skip(1), u, b, false)
            } else {
                !false && b == x
            };
        assert(all[0] == es[0]);
        if k {
            assert(all.skip(1).take(es.skip(1).len() as int) =~= es.skip(1));
            lemma_dedits_prefix_fail(x, es.skip(1), all.skip(1), u, b);
        }
        assert(dedit_result(a, all[0], u, x, k));
    }
}

/// Applies the edits `es` in turn, stopping at the first that fails.
pub fn apply_dedits(dev: &mut Device, es: &Vec<DeviceEdit>, update_fields: bool) -> (r: Result<(), PatchError>)
    ensures
        dedits_applied(*old(dev), es@, update_fields, *final(dev), r is Ok),
{
    let ghost a = *dev;
    let mut i: usize = 0;
    assert(es@.take(0) =~= Seq::<DeviceEdit>::empty());
    while i < es.len()
        invariant
            i <= es@.len(),
            a == *old(dev),
            dedits_applied(a, es@.take(i as int), update_fields, *dev, true),
        decreases es@.len() - i,
    {
        let ghost m = *dev;
        let r = apply_dedit(dev, &es[i], update_fields);
        proof {
            lemma_dedits_push(a, es@.take(i as int), update_fields, m, es@[i as int], *dev, r is Ok);
            assert(es@.take(i as int).push(es@[i as int]) =~= es@.take(i + 1));
        }
        match r {
            Ok(()) => {},
            Err(e) => {
                proof {
                    lemma_dedits_prefix_fail(a, es@.take(i + 1), es@, update_fields, *dev);
                }
                return Err(e);
            },
        }
        i += 1;
    }
    assert(es@.take(es@.len() as int) =~= es@);
    Ok(())
}

/// Work through a device, handling all peripherals: the mapping is read
/// into edits (see [`device_edits`]), which are applied in turn as
/// [`dedits_applied`] says. Fails where the mapping cannot be read, or at
/// the first edit that fails.
pub fn process(dev: &mut Device, device: &Vec<(YamlValue, YamlValue)>, update_fields: bool) -> (r: Result<(), PatchError>)
    ensures
        match device_edits(device@) {
            None => r is Err && *final(dev) == *old(dev),
            Some(es) => dedits_applied(*old(dev), es, update_fields, *final(dev), r is Ok),
        },
{
    let es = match device_edits_of(device) {
        Some(v) => v,
        None => return Err(PatchError::Value(owned(dev.name.as_str()))),
    };
    apply_dedits(dev, &es, update_fields)
}

/// Making `pname` derive from another peripheral leaves no peripheral
/// deriving from `pname`.
pub proof fn lemma_derive_moves_references(a: Device, pname: Seq<char>, pderive: Seq<char>, b: Device)
    requires
        derived_result(a, pname, pderive, b),
        pname != pderive,
    ensures
        forall|k: int|
            0 <= k < b.peripherals@.len() ==> !((#[trigger] b.peripherals@[k]).info_spec().derived_from matches Some(d)
                && d@ == pname),
{
    let i = choose|i: int|
        named_at(a.peripherals@, pname, i) && forall|k: int|
            0 <= k < a.peripherals@.len() ==> if k == i {
                derived_peripheral(a.peripherals@[k], #[trigger] b.peripherals@[k], pderive)
            } else {
                rederived(a.peripherals@[k], b.peripherals@[k], pname, pderive)
            };
    assert forall|k: int| 0 <= k < b.peripherals@.len() implies !((#[trigger] b.peripherals@[k]).info_spec(
    ).derived_from matches Some(d) && d@ == pname) by {
        if k == i {
            assert(derived_peripheral(a.peripherals@[k], b.peripherals@[k], pderive));
        } else {
            assert(rederived(a.peripherals@[k], b.peripherals@[k], pname, pderive));
        }
    }
}

/// Rebasing `pold` on `pnew` leaves no peripheral deriving from `pold`.
pub proof fn lemma_rebase_moves_references(a: Device, pnew: Seq<char>, pold: Seq<char>, b: Device)
    requires
        rebased_result(a, pnew, pold, b, true),
        pold != pnew,
    ensures
        forall|k: int|
            0 <= k < b.peripherals@.len() ==> !((#[trigger] b.peripherals@[k]).info_spec().derived_from matches Some(d)
                && d@ == pold),
{
    let s = a.peripherals@;
    let t = b.peripherals@;
    let (i, j, x, q) = choose|i: int, j: int, x: PeripheralInfo, q: Peripheral| #[trigger]
        rebased(s, t, pold, pnew, i, j, x, q);
    let u = s.update(i, Peripheral::Single(x)).update(j, q);
    assert forall|k: int| 0 <= k < t.len() implies !((#[trigger] t[k]).info_spec().derived_from matches Some(d) && d@
        == pold) by {
        assert(rederived(u[k], t[k], pold, pnew));
    }
}

/// Rebasing `pold` on `pnew` moves the registers: the first peripheral
/// named `pnew` takes those of the first named `pold`, keeping its name,
/// base address and interrupts; the peripheral named `pold` keeps its name,
/// base address and interrupts, has no registers, and derives from `pnew`.
pub proof fn lemma_rebase_moves_registers(a: Device, pnew: Seq<char>, pold: Seq<char>, b: Device)
    requires
        rebased_result(a, pnew, pold, b, true),
        pold != pnew,
    ensures
        exists|i: int, j: int|
            #![trigger named_at(a.peripherals@, pold, i), named_at(a.peripherals@, pnew, j)]
            {
                let s = a.peripherals@;
                let t = b.peripherals@;
                &&& named_at(s, pold, i)
                &&& named_at(s, pnew, j)
                &&& t[j].info_spec().name@ == pnew
                &&& t[j].info_spec().base_address == s[j].info_spec().base_address
                &&& t[j].info_spec().interrupt@ == s[j].info_spec().interrupt@
                &&& t[j].info_spec().registers == s[i].info_spec().registers
                &&& t[i].info_spec().name@ == pold
                &&& t[i].info_spec().base_address == s[i].info_spec().base_address
                &&& t[i].info_spec().interrupt@ == s[i].info_spec().interrupt@
                &&& t[i].info_spec().derived_from matches Some(d) && d@ == pnew
                &&& t[i].info_spec().registers is None
            },
{
    let s = a.peripherals@;
    let t = b.peripherals@;
    let (i, j, x, q) = choose|i: int, j: int, x: PeripheralInfo, q: Peripheral| #[trigger]
        rebased(s, t, pold, pnew, i, j, x, q);
    let mid = s.update(i, Peripheral::Single(x));
    let u = mid.update(j, q);
    assert(mid[i].info_spec().name@ == pold);
    assert(j != i);
    assert(mid[j] == s[j]);
    assert forall|k: int| 0 <= k < j implies s[k].info_spec().name@ != pnew by {
        if k != i {
            assert(mid[k] == s[k]);
        }
    }
    assert(named_at(s, pnew, j));
    assert(rederived(u[j], t[j], pold, pnew));
    assert(rederived(u[i], t[i], pold, pnew));
    assert(u[i] == Peripheral::Single(x));
}

/// An added peripheral is found under its name: it is the first of that
/// name, at the end.
pub proof fn lemma_added_found(a: Device, pname: Seq<char>, padd: Seq<(YamlValue, YamlValue)>, b: Device)
    requires
        added_result(a, pname, padd, b, true),
    ensures
        named_at(b.peripherals@, pname, b.peripherals@.len() - 1),
{
    let t = b.peripherals@;
    assert forall|j: int| 0 <= j < t.len() - 1 implies t[j].info_spec().name@ != pname by {
        assert(t[j] == a.peripherals@[j]);
        if t[j].info_spec().name@ == pname {
            lemma_first_named(a.peripherals@, pname, j);
        }
    }
}

/// A name at `w` has a first occurrence.
proof fn lemma_first_named(s: Seq<Peripheral>, name: Seq<char>, w: int)
    requires
        0 <= w < s.len(),
        s[w].info_spec().name@ == name,
    ensures
        exists|i: int| named_at(s, name, i),
    decreases w,
{
    if exists|j: int| 0 <= j < w && s[j].info_spec().name@ == name {
        let j = choose|j: int| 0 <= j < w && s[j].info_spec().name@ == name;
        lemma_first_named(s, name, j);
    } else {
        assert(named_at(s, name, w));
    }
}

/// An empty patch asks no edit of a device.
pub proof fn lemma_empty_device_patch()
    ensures
        device_edits::<'static>(Seq::empty()) == Some(Seq::<DeviceEdit<'static>>::empty()),
{
    reveal(device_section);
    let e = Seq::<(YamlValue, YamlValue)>::empty();
    assert(get_key_spec(e, "_delete"@) is None);
    assert(entries_in(get_key_spec(e, "_copy"@)) =~= e);
    assert(device_edits::<'static>(e) =~= Some(Seq::<DeviceEdit<'static>>::empty()));
}

/// Applying no edit leaves the device as it is, and succeeds.
pub proof fn lemma_no_edits(a: Device, u: bool, b: Device, ok: bool)
    requires
        dedits_applied(a, Seq::empty(), u, b, ok),
    ensures
        ok && b == a,
{
}

} // verus!
