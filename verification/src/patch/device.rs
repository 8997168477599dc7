//! The edits that a patch file makes to the peripherals of a device.
use vstd::prelude::*;

use crate::patch::error::PatchError;
use crate::patch::make::{key_number, key_text, register_properties_of, VAL_LVL};
use crate::register::properties_outcome;
use crate::patch::names::{checked_matchname, matchname, matchname_spec};
use crate::patch::peripheral_make::{make_peripheral, peripheral_builder_of, peripheral_ok};
use crate::patch::peripheral_process::{pedits_applied, peripheral_edits};
use crate::field::opt_chars;
use crate::patch::yaml::{flag_spec, get_bool, get_i64, get_key_spec, get_str, model, YamlValue};
use crate::copying::{copy_dim, copy_registers, dim_same, registers_same};
use crate::peripheral::{clone_interrupts, opt_view};
use crate::text::{chars_of, owned, split_chars, split_spec, str_eq, strings_view};
use crate::{Cpu, CpuBuilder, Device, Endian, Peripheral, PeripheralInfo, PeripheralInfoBuilder, RegisterProperties};

verus! {

/// The peripheral `p` matches the specification `spec`.
pub open spec fn peripheral_matches(p: Peripheral, spec: Seq<char>) -> bool {
    matchname_spec(p.info_spec().name@, spec) == Some(true)
}

/// The peripherals of `s` that `spec` does not match, in order.
pub open spec fn kept(s: Seq<Peripheral>, spec: Seq<char>) -> Seq<Peripheral>
    decreases s.len(),
{
    if s.len() == 0 {
        s
    } else if peripheral_matches(s.last(), spec) {
        kept(s.drop_last(), spec)
    } else {
        kept(s.drop_last(), spec).push(s.last())
    }
}

/// Every peripheral name can be tested against `spec`.
pub open spec fn names_testable(s: Seq<Peripheral>, spec: Seq<char>) -> bool {
    forall|i: int| 0 <= i < s.len() ==> (#[trigger] matchname_spec(s[i].info_spec().name@, spec)) is Some
}

/// Delete the peripherals that `pspec` matches.
pub fn delete_peripheral(dev: &mut Device, pspec: &str)
    requires
        names_testable(old(dev).peripherals@, pspec@),
    ensures
        final(dev).peripherals@ == kept(old(dev).peripherals@, pspec@),
        *final(dev) == (Device { peripherals: final(dev).peripherals, ..*old(dev) }),
{
    let ghost s = dev.peripherals@;
    let mut list: Vec<Peripheral> = Vec::new();
    std::mem::swap(&mut dev.peripherals, &mut list);
    let mut out: Vec<Peripheral> = Vec::new();
    let mut i: usize = 0;
    let n = list.len();
    let ghost l0 = list@;
    while i < n
        invariant
            l0 == s,
            n == s.len(),
            i <= n,
            list@ == s.skip(i as int),
            names_testable(s, pspec@),
            out@ == kept(s.take(i as int), pspec@),
        decreases n - i,
    {
        let p = list.remove(0);
        assert(p == s[i as int]);
        assert(s.take(i + 1).drop_last() =~= s.take(i as int));
        assert(s.take(i + 1).last() == s[i as int]);
        assert(matchname_spec(s[i as int].info_spec().name@, pspec@) is Some);
        let m = matchname(p.info().name.as_str(), pspec);
        if !m {
            out.push(p);
        }
        assert(list@ =~= s.skip(i + 1));
        i += 1;
    }
    assert(s.take(n as int) =~= s);
    dev.peripherals = out;
}

/// The position of the first peripheral named `name`.
pub open spec fn named_at(s: Seq<Peripheral>, name: Seq<char>, i: int) -> bool {
    0 <= i < s.len() && s[i].info_spec().name@ == name && forall|j: int|
        0 <= j < i ==> s[j].info_spec().name@ != name
}

/// Finds the first peripheral named `name`.
pub fn find_peripheral(s: &Vec<Peripheral>, name: &str) -> (r: Option<usize>)
    ensures
        match r {
            Some(i) => named_at(s@, name@, i as int),
            None => forall|j: int| 0 <= j < s@.len() ==> s@[j].info_spec().name@ != name@,
        },
{
    let mut i: usize = 0;
    while i < s.len()
        invariant
            i <= s@.len(),
            forall|j: int| 0 <= j < i ==> s@[j].info_spec().name@ != name@,
        decreases s@.len() - i,
    {
        if str_eq(s[i].info().name.as_str(), name) {
            return Some(i);
        }
        i += 1;
    }
    None
}

/// `q` is `p` derived from `pderive`: its registers, address blocks and
/// default properties are cleared.
pub open spec fn derived_peripheral(p: Peripheral, q: Peripheral, pderive: Seq<char>) -> bool {
    &&& (q is Single) == (p is Single)
    &&& (p matches Peripheral::Array(_, d) ==> q matches Peripheral::Array(_, e) && e == d)
    &&& q.info_spec().derived_from matches Some(d) && d@ == pderive
    &&& q.info_spec() == PeripheralInfo {
        derived_from: q.info_spec().derived_from,
        registers: None,
        address_block: None,
        default_register_properties: RegisterProperties::empty(),
        ..p.info_spec()
    }
}

/// `q` is `p` with a `derivedFrom` of `pname` moved to `pderive`.
pub open spec fn rederived(p: Peripheral, q: Peripheral, pname: Seq<char>, pderive: Seq<char>) -> bool {
    if p.info_spec().derived_from matches Some(d) && d@ == pname {
        &&& (q is Single) == (p is Single)
        &&& (p matches Peripheral::Array(_, d) ==> q matches Peripheral::Array(_, e) && e == d)
        &&& q.info_spec().derived_from matches Some(d) && d@ == pderive
        &&& q.info_spec() == PeripheralInfo { derived_from: q.info_spec().derived_from, ..p.info_spec() }
    } else {
        q == p
    }
}

/// Moves a `derivedFrom` of `pname` to `pderive`.
fn rederive(p: &mut Peripheral, pname: &str, pderive: &str)
    ensures
        rederived(*old(p), *final(p), pname@, pderive@),
{
    let hit = match &p.info().derived_from {
        Some(d) => str_eq(d.as_str(), pname),
        None => false,
    };
    if hit {
        let info = p.info_mut();
        info.derived_from = Some(owned(pderive));
    }
}

/// Remove the registers of `pname` and mark it as derived from `pderive`;
/// every peripheral derived from `pname` is then derived from `pderive`.
/// Both peripherals must exist.
pub fn derive_peripheral(dev: &mut Device, pname: &str, pderive: &str)
    requires
        exists|i: int| named_at(old(dev).peripherals@, pderive@, i),
        exists|i: int| named_at(old(dev).peripherals@, pname@, i),
    ensures
        *final(dev) == (Device { peripherals: final(dev).peripherals, ..*old(dev) }),
        final(dev).peripherals@.len() == old(dev).peripherals@.len(),
        exists|i: int|
            named_at(old(dev).peripherals@, pname@, i) && forall|k: int|
                0 <= k < old(dev).peripherals@.len() ==> if k == i {
                    derived_peripheral(old(dev).peripherals@[k], #[trigger] final(dev).peripherals@[k], pderive@)
                } else {
                    rederived(old(dev).peripherals@[k], final(dev).peripherals@[k], pname@, pderive@)
                },
{
    let idx = match find_peripheral(&dev.peripherals, pname) {
        Some(i) => i,
        None => {
            proof {
                let i = choose|i: int| named_at(old(dev).peripherals@, pname@, i);
                assert(false);
            }
            0
        },
    };
    let ghost s = dev.peripherals@;
    {
        let p = &mut dev.peripherals[idx];
        let b = PeripheralInfo::builder().derived_from(Some(owned(pderive)));
        let info = p.info_mut();
        let _ = info.modify_from(b, VAL_LVL);
    }
    let ghost mid = dev.peripherals@;
    let n = dev.peripherals.len();
    let mut k: usize = 0;
    while k < n
        invariant
            n == dev.peripherals@.len(),
            n == s.len(),
            k <= n,
            idx < n,
            named_at(s, pname@, idx as int),
            derived_peripheral(s[idx as int], mid[idx as int], pderive@),
            mid.len() == n,
            forall|j: int| 0 <= j < n && j != idx ==> mid[j] == s[j],
            forall|j: int| k <= j < n ==> dev.peripherals@[j] == mid[j],
            forall|j: int|
                0 <= j < k ==> rederived(mid[j], #[trigger] dev.peripherals@[j], pname@, pderive@),
            *dev == (Device { peripherals: dev.peripherals, ..*old(dev) }),
            s == old(dev).peripherals@,
        decreases n - k,
    {
        let p = &mut dev.peripherals[k];
        rederive(p, pname, pderive);
        k += 1;
    }
    proof {
        assert forall|j: int| 0 <= j < n implies (if j == idx {
            derived_peripheral(s[j], #[trigger] dev.peripherals@[j], pderive@)
        } else {
            rederived(s[j], dev.peripherals@[j], pname@, pderive@)
        }) by {
            if j == idx {
                assert(rederived(mid[j], dev.peripherals@[j], pname@, pderive@));
            }
        }
    }
}

/// Whether every peripheral name can be tested against `pspec`.
fn check_names(s: &Vec<Peripheral>, pspec: &str) -> (r: bool)
    ensures
        r == names_testable(s@, pspec@),
{
    let mut i: usize = 0;
    while i < s.len()
        invariant
            i <= s@.len(),
            forall|j: int| 0 <= j < i ==> (#[trigger] matchname_spec(s@[j].info_spec().name@, pspec@)) is Some,
        decreases s@.len() - i,
    {
        if checked_matchname(s[i].info().name.as_str(), pspec).is_none() {
            return false;
        }
        i += 1;
    }
    true
}

/// What [`delete_peripherals`] gives: the device `b` from `a`, where it succeeds
/// when `ok`.
pub open spec fn deleted_result(a: Device, pspec: Seq<char>, b: Device, ok: bool) -> bool {
    &&& (ok <==> names_testable(a.peripherals@, pspec))
    &&& (!ok ==> b == a)
    &&& (ok ==> b.peripherals@ == kept(a.peripherals@, pspec) && b == (Device {
        peripherals: b.peripherals,
        ..a
    }))
}

/// Delete the peripherals that `pspec` matches; fails, leaving the device
/// as it is, where a name cannot be tested against it.
pub fn delete_peripherals(dev: &mut Device, pspec: &str) -> (r: Result<(), PatchError>)
    ensures
        deleted_result(*old(dev), pspec@, *final(dev), r is Ok),
{
    if !check_names(&dev.peripherals, pspec) {
        return Err(PatchError::InvalidGlob(owned(pspec)));
    }
    delete_peripheral(dev, pspec);
    Ok(())
}

/// `x` is the peripheral named `pname` that the mapping `padd` describes
/// (see [`peripheral_builder_of`]).
pub open spec fn described_peripheral(padd: Seq<(YamlValue, YamlValue)>, pname: Seq<char>, x: PeripheralInfo) -> bool {
    exists|b: PeripheralInfoBuilder|
        {
            &&& peripheral_builder_of(padd, b)
            &&& x.name@ == pname
            &&& x == (PeripheralInfoBuilder { name: Some(x.name), ..b }).built_with(x.interrupt)
            &&& x.interrupt@ == b.interrupts()
        }
}

/// The mapping `padd` describes a peripheral that can be built: it can be
/// read, it gives a base address, and unless it derives, its default
/// properties pass validation.
pub open spec fn peripheral_addable(padd: Seq<(YamlValue, YamlValue)>) -> bool {
    &&& peripheral_ok(padd)
    &&& key_number(padd, "baseAddress"@) is Some
    &&& (key_text(padd, "derivedFrom"@) is None ==> properties_outcome(register_properties_of(padd), VAL_LVL) is Ok)
}

/// What [`add_peripheral`] gives: the device `b` from `a`, where it succeeds
/// when `ok`.
pub open spec fn added_result(a: Device, pname: Seq<char>, padd: Seq<(YamlValue, YamlValue)>, b: Device, ok: bool) -> bool {
    &&& (ok <==> !(exists|i: int| named_at(a.peripherals@, pname, i)) && peripheral_addable(padd))
    &&& (!ok ==> b == a)
    &&& (ok ==> {
        let t = b.peripherals@;
        &&& t.len() == a.peripherals@.len() + 1
        &&& t.drop_last() == a.peripherals@
        &&& t.last() matches Peripheral::Single(x) && described_peripheral(padd, pname, x)
        &&& b == (Device { peripherals: b.peripherals, ..a })
    })
}

/// Add pname given by padd to device: a single peripheral built from the
/// mapping (see [`described_peripheral`]) goes after the others. Fails,
/// leaving the device as it is, exactly where a peripheral has that name
/// or the mapping describes no peripheral that can be built (see
/// [`peripheral_addable`]).
pub fn add_peripheral(dev: &mut Device, pname: &str, padd: &Vec<(YamlValue, YamlValue)>) -> (r: Result<(), PatchError>)
    ensures
        added_result(*old(dev), pname@, padd@, *final(dev), r is Ok),
        (exists|i: int| named_at(old(dev).peripherals@, pname@, i)) ==> r matches Err(PatchError::Exists(_)),
{
    match find_peripheral(&dev.peripherals, pname) {
        Some(_) => return Err(PatchError::Exists(owned(pname))),
        None => {},
    }
    let b = match make_peripheral(padd) {
        Ok(b) => b,
        Err(e) => return Err(e),
    };
    let ghost b0 = b;
    proof {
        reveal_strlit("baseAddress");
        reveal_strlit("derivedFrom");
    }
    let x = match b.name(owned(pname)).build(VAL_LVL) {
        Ok(x) => x,
        Err(e) => {
            assert(properties_outcome(RegisterProperties::empty(), VAL_LVL) is Ok);
            return Err(PatchError::Invalid(e));
        },
    };
    assert(b0.base_address is Some);
    assert(x == (PeripheralInfoBuilder { name: Some(x.name), ..b0 }).built_with(x.interrupt));
    assert(x.interrupt@ == b0.interrupts());
    assert(x.name@ == pname@);
    assert(described_peripheral(padd@, pname@, x));
    let ghost before = dev.peripherals@;
    dev.peripherals.push(Peripheral::Single(x));
    assert(dev.peripherals@.drop_last() =~= before);
    Ok(())
}

/// The modifications of the patch file reach peripheral `p`: `pspec`
/// matches it and it derives from no other.
pub open spec fn targeted(p: Peripheral, pspec: Seq<char>) -> bool {
    peripheral_matches(p, pspec) && p.info_spec().derived_from is None
}

/// `q` is a peripheral of the kind of `p`: single where `p` is, else an
/// array of the same dimensions.
pub open spec fn shape_kept(p: Peripheral, q: Peripheral) -> bool {
    match p {
        Peripheral::Single(_) => q is Single,
        Peripheral::Array(_, d) => q matches Peripheral::Array(_, e) && e == d,
    }
}

/// `q` is `p` modified by the builder that the mapping `pmod` describes.
pub open spec fn peripheral_modified(p: Peripheral, q: Peripheral, pmod: Seq<(YamlValue, YamlValue)>) -> bool {
    &&& shape_kept(p, q)
    &&& exists|b: PeripheralInfoBuilder|
        peripheral_builder_of(pmod, b) && p.info_spec().modified_by(b, VAL_LVL, q.info_spec(), Ok(()))
}

/// The mapping `pmod` can modify peripheral `p`: it can be read, and
/// unless it derives, the default properties of `p` modified by its own
/// pass validation.
pub open spec fn modification_ok(p: Peripheral, pmod: Seq<(YamlValue, YamlValue)>) -> bool {
    &&& peripheral_ok(pmod)
    &&& (key_text(pmod, "derivedFrom"@) is None ==> properties_outcome(
        p.info_spec().default_register_properties.modified(register_properties_of(pmod)),
        VAL_LVL,
    ) is Ok)
}

/// What [`modify_peripheral`] gives: the device `b` from `a`, where it succeeds
/// when `ok`.
pub open spec fn modified_result(a: Device, pspec: Seq<char>, pmod: Seq<(YamlValue, YamlValue)>, b: Device, ok: bool) -> bool {
    &&& (ok <==> names_testable(a.peripherals@, pspec) && forall|k: int|
        0 <= k < a.peripherals@.len() && targeted(a.peripherals@[k], pspec) ==> modification_ok(
            #[trigger] a.peripherals@[k],
            pmod,
        ))
    &&& (ok ==> {
        &&& b.peripherals@.len() == a.peripherals@.len()
        &&& forall|k: int|
            0 <= k < a.peripherals@.len() ==> if targeted(a.peripherals@[k], pspec) {
                peripheral_modified(a.peripherals@[k], #[trigger] b.peripherals@[k], pmod)
            } else {
                b.peripherals@[k] == a.peripherals@[k]
            }
        &&& b == (Device { peripherals: b.peripherals, ..a })
    })
}

/// Modify pspec inside device according to pmod: every peripheral that
/// `pspec` matches and that derives from no other is modified by the
/// builder that the mapping describes (see [`peripheral_modified`]); the
/// others stay. Fails exactly where a name cannot be tested or some
/// peripheral to be modified cannot be (see [`modification_ok`]); the
/// device is then left in an unspecified state.
pub fn modify_peripheral(dev: &mut Device, pspec: &str, pmod: &Vec<(YamlValue, YamlValue)>) -> (r: Result<(), PatchError>)
    ensures
        modified_result(*old(dev), pspec@, pmod@, *final(dev), r is Ok),
{
    if !check_names(&dev.peripherals, pspec) {
        return Err(PatchError::InvalidGlob(owned(pspec)));
    }
    let ghost s = dev.peripherals@;
    let n = dev.peripherals.len();
    let mut k: usize = 0;
    while k < n
        invariant
            n == dev.peripherals@.len(),
            n == s.len(),
            k <= n,
            s == old(dev).peripherals@,
            names_testable(s, pspec@),
            forall|j: int| k <= j < n ==> dev.peripherals@[j] == s[j],
            forall|j: int|
                0 <= j < k ==> if targeted(s[j], pspec@) {
                    peripheral_modified(s[j], #[trigger] dev.peripherals@[j], pmod@)
                } else {
                    dev.peripherals@[j] == s[j]
                },
            forall|j: int| 0 <= j < k && targeted(s[j], pspec@) ==> modification_ok(#[trigger] s[j], pmod@),
            *dev == (Device { peripherals: dev.peripherals, ..*old(dev) }),
        decreases n - k,
    {
        assert(dev.peripherals@[k as int] == s[k as int]);
        assert(matchname_spec(s[k as int].info_spec().name@, pspec@) is Some);
        let hit = matchname(dev.peripherals[k].info().name.as_str(), pspec) && dev.peripherals[k].info().derived_from.is_none();
        if hit {
            let b = match make_peripheral(pmod) {
                Ok(b) => b,
                Err(e) => {
                    assert(!modification_ok(s[k as int], pmod@));
                    return Err(e);
                },
            };
            let ghost b0 = b;
            let ghost before = dev.peripherals@;
            let p = &mut dev.peripherals[k];
            let ghost p0 = *p;
            let info = p.info_mut();
            match info.modify_from(b, VAL_LVL) {
                Ok(()) => {},
                Err(e) => {
                    proof {
                        reveal_strlit("derivedFrom");
                    }
                    assert(!modification_ok(s[k as int], pmod@));
                    return Err(PatchError::Invalid(e));
                },
            }
            proof {
                reveal_strlit("derivedFrom");
            }
            assert(modification_ok(s[k as int], pmod@));
            assert(peripheral_modified(s[k as int], dev.peripherals@[k as int], pmod@));
            assert forall|j: int| 0 <= j < n && j != k implies dev.peripherals@[j] == before[j] by {}
        }
        k += 1;
    }
    Ok(())
}

/// The peripheral of the same device that a copy comes from: `from`
/// without colons names it (`path:name` names one of another file).
pub open spec fn local_source(from: Seq<char>) -> Option<Seq<char>> {
    let parts = split_spec(from, ':');
    if parts.len() == 1 {
        Some(parts[0])
    } else {
        None
    }
}

/// `q` is a copy of `src` named `pname`, with the contents of its
/// registers and dimensions (see [`registers_same`], [`dim_same`]), placed
/// where a peripheral may stand already: where `at` is that peripheral,
/// the copy takes its base address and its interrupts; else it has none.
pub open spec fn placed_copy(src: Peripheral, at: Option<Peripheral>, pname: Seq<char>, q: Peripheral) -> bool {
    let a = src.info_spec();
    let b = q.info_spec();
    &&& match (src, q) {
        (Peripheral::Single(_), Peripheral::Single(_)) => true,
        (Peripheral::Array(_, d), Peripheral::Array(_, e)) => dim_same(d, e),
        _ => false,
    }
    &&& b.name@ == pname
    &&& registers_same(a.registers, b.registers)
    &&& opt_view(b.address_block) == opt_view(a.address_block)
    &&& match at {
        Some(t) => b.base_address == t.info_spec().base_address && b.interrupt@ == t.info_spec().interrupt@,
        None => b.base_address == a.base_address && b.interrupt@.len() == 0,
    }
    &&& b == PeripheralInfo {
        name: b.name,
        base_address: b.base_address,
        registers: b.registers,
        address_block: b.address_block,
        interrupt: b.interrupt,
        ..a
    }
}

/// The mapping `pmod` names, under `from`, a peripheral of the device
/// that is in `s`.
pub open spec fn copy_source_found(s: Seq<Peripheral>, pmod: Seq<(YamlValue, YamlValue)>) -> bool {
    key_text(pmod, "from"@) matches Some(f) && local_source(f) matches Some(n) && exists|i: int| named_at(s, n, i)
}

/// What [`copy_peripheral`] gives: the device `b` from `a`, where it succeeds
/// when `ok`.
pub open spec fn copied_result(a: Device, pname: Seq<char>, pmod: Seq<(YamlValue, YamlValue)>, b: Device, ok: bool) -> bool {
    &&& (ok <==> copy_source_found(a.peripherals@, pmod))
    &&& (!ok ==> b == a)
    &&& (ok ==> {
        let s = a.peripherals@;
        let t = b.peripherals@;
        let src = local_source(key_text(pmod, "from"@)->0);
        &&& src is Some
        &&& exists|i: int|
            named_at(s, src->0, i) && if exists|j: int| named_at(s, pname, j) {
                let j = choose|j: int| named_at(s, pname, j);
                &&& t.len() == s.len()
                &&& placed_copy(s[i], Some(s[j]), pname, t[j])
                &&& forall|k: int| 0 <= k < s.len() && k != j ==> t[k] == s[k]
            } else {
                &&& t.len() == s.len() + 1
                &&& t.drop_last() == s
                &&& placed_copy(s[i], None, pname, t.last())
            }
        &&& b == (Device { peripherals: b.peripherals, ..a })
    })
}

/// Create copy of peripheral: `from` names a peripheral of the device (the
/// first of that name), which is copied without its interrupts under the
/// name `pname`; the copy replaces the first peripheral named `pname`,
/// taking its base address and interrupts, or else goes after the others.
/// Fails, leaving the device as it is, where `from` is missing, names
/// a peripheral of another file (not supported) or no peripheral.
pub fn copy_peripheral(dev: &mut Device, pname: &str, pmod: &Vec<(YamlValue, YamlValue)>) -> (r: Result<(), PatchError>)
    ensures
        copied_result(*old(dev), pname@, pmod@, *final(dev), r is Ok),
{
    proof {
        reveal_strlit("from");
    }
    let from = match get_str(pmod, "from") {
        Some(f) => f,
        None => return Err(PatchError::Value(owned(pname))),
    };
    let chars = chars_of(from);
    let parts = split_chars(chars.as_slice(), ':');
    assert(strings_view(parts@) == split_spec(from@, ':'));
    if parts.len() == 2 {
        return Err(PatchError::Unsupported(owned(from)));
    }
    if parts.len() != 1 {
        return Err(PatchError::Value(owned(from)));
    }
    assert(strings_view(parts@)[0] == parts@[0]@);
    let ghost sname = parts@[0]@;
    assert(local_source(key_text(pmod@, "from"@)->0) == Some(sname));
    let i = match find_peripheral(&dev.peripherals, parts[0].as_str()) {
        Some(i) => i,
        None => return Err(PatchError::NotFound(owned(from))),
    };
    let ghost s = dev.peripherals@;
    let src = &dev.peripherals[i];
    let mut info = src.info().clone();
    info.registers = copy_registers(&src.info().registers);
    info.interrupt = Vec::new();
    info.name = owned(pname);
    let mut new = match src {
        Peripheral::Single(_) => Peripheral::Single(info),
        Peripheral::Array(_, d) => Peripheral::Array(info, copy_dim(d)),
    };
    assert(placed_copy(s[i as int], None, pname@, new));
    match find_peripheral(&dev.peripherals, pname) {
        Some(j) => {
            let base = dev.peripherals[j].info().base_address;
            let ints = clone_interrupts(&dev.peripherals[j].info().interrupt);
            {
                let ni = new.info_mut();
                ni.base_address = base;
                ni.interrupt = ints;
            }
            assert(placed_copy(s[i as int], Some(s[j as int]), pname@, new));
            dev.peripherals.set(j, new);
            proof {
                let jj = choose|jj: int| named_at(s, pname@, jj);
                assert(jj == j);
            }
        },
        None => {
            dev.peripherals.push(new);
            assert(dev.peripherals@.drop_last() =~= s);
        },
    }
    assert(named_at(s, local_source(key_text(pmod@, "from"@)->0)->0, i as int));
    Ok(())
}

/// `x` is what stands in the place of peripheral `p` once it is rebased
/// on `pnew`: a peripheral named `pold`, at the base address of `p`, with
/// its interrupts, derived from `pnew`, and nothing else.
pub open spec fn rebase_stub(p: Peripheral, x: PeripheralInfo, pold: Seq<char>, pnew: Seq<char>) -> bool {
    &&& x.name@ == pold
    &&& x.derived_from matches Some(d) && d@ == pnew
    &&& x.interrupt@ == p.info_spec().interrupt@
    &&& x == (PeripheralInfoBuilder {
        name: Some(x.name),
        base_address: Some(p.info_spec().base_address),
        interrupt: Some(x.interrupt),
        derived_from: x.derived_from,
        ..PeripheralInfoBuilder::empty()
    }).built_with(x.interrupt)
}

/// `q` is peripheral `p` moved into the place of `at`: under its name, at
/// its base address and with its interrupts.
pub open spec fn moved_into(p: Peripheral, at: PeripheralInfo, q: Peripheral) -> bool {
    let b = q.info_spec();
    &&& shape_kept(p, q)
    &&& b.name@ == at.name@
    &&& b.base_address == at.base_address
    &&& b.interrupt@ == at.interrupt@
    &&& b == PeripheralInfo { name: b.name, base_address: b.base_address, interrupt: b.interrupt, ..p.info_spec() }
}

/// `t` is `s` rebased: the first peripheral named `pold`, at `i`, gives way
/// to the stub `x`; it moves, as `q`, into the place `j` of the first then
/// named `pnew`; then every peripheral derived from `pold` is derived from
/// `pnew`.
pub open spec fn rebased(
    s: Seq<Peripheral>,
    t: Seq<Peripheral>,
    pold: Seq<char>,
    pnew: Seq<char>,
    i: int,
    j: int,
    x: PeripheralInfo,
    q: Peripheral,
) -> bool {
    let mid = s.update(i, Peripheral::Single(x));
    &&& named_at(s, pold, i)
    &&& rebase_stub(s[i], x, pold, pnew)
    &&& named_at(mid, pnew, j)
    &&& moved_into(s[i], mid[j].info_spec(), q)
    &&& forall|k: int| 0 <= k < s.len() ==> rederived(mid.update(j, q)[k], #[trigger] t[k], pold, pnew)
}

/// What [`rebase_peripheral`] gives: the device `b` from `a`, where it succeeds
/// when `ok`.
pub open spec fn rebased_result(a: Device, pnew: Seq<char>, pold: Seq<char>, b: Device, ok: bool) -> bool {
    &&& (ok <==> (exists|i: int| named_at(a.peripherals@, pold, i)) && (pnew == pold || exists|k: int|
        0 <= k < a.peripherals@.len() && (#[trigger] a.peripherals@[k]).info_spec().name@ == pnew))
    &&& (ok ==> {
        let s = a.peripherals@;
        let t = b.peripherals@;
        &&& t.len() == s.len()
        &&& b == (Device { peripherals: b.peripherals, ..a })
        &&& exists|i: int, j: int, x: PeripheralInfo, q: Peripheral| #[trigger]
            rebased(s, t, pold, pnew, i, j, x, q)
    })
}

/// Move registers from pold to pnew: the first peripheral named `pold`
/// gives way to a stub derived from `pnew` (see [`rebase_stub`]), and
/// moves into the place of the first peripheral then named `pnew` (see
/// [`moved_into`]); then every peripheral derived from `pold` is derived
/// from `pnew`. Fails exactly where either peripheral is missing; the
/// device is then left in an unspecified state.
pub fn rebase_peripheral(dev: &mut Device, pnew: &str, pold: &str) -> (r: Result<(), PatchError>)
    ensures
        rebased_result(*old(dev), pnew@, pold@, *final(dev), r is Ok),
{
    let i = match find_peripheral(&dev.peripherals, pold) {
        Some(i) => i,
        None => return Err(PatchError::NotFound(owned(pold))),
    };
    let ghost s = dev.peripherals@;
    let base = dev.peripherals[i].info().base_address;
    let ints = clone_interrupts(&dev.peripherals[i].info().interrupt);
    let x = match PeripheralInfo::builder().name(owned(pold)).base_address(base).interrupt(Some(ints)).derived_from(
        Some(owned(pnew)),
    ).build(VAL_LVL) {
        Ok(x) => x,
        Err(e) => {
            assert(properties_outcome(RegisterProperties::empty(), VAL_LVL) is Ok);
            return Err(PatchError::Invalid(e));
        },
    };
    let ghost x0 = x;
    assert(rebase_stub(s[i as int], x, pold@, pnew@));
    let mut moved = dev.peripherals.remove(i);
    dev.peripherals.insert(i, Peripheral::Single(x));
    let ghost mid = dev.peripherals@;
    assert(mid =~= s.update(i as int, Peripheral::Single(x0)));
    let j = match find_peripheral(&dev.peripherals, pnew) {
        Some(j) => j,
        None => {
            proof {
                assert(mid[i as int].info_spec().name@ == pold@);
                assert forall|k: int| 0 <= k < s.len() implies (#[trigger] s[k]).info_spec().name@ != pnew@ by {
                    if k != i {
                        assert(mid[k] == s[k]);
                    }
                }
            }
            return Err(PatchError::NotFound(owned(pnew)));
        },
    };
    proof {
        if pnew@ != pold@ {
            assert(mid[j as int] == s[j as int]);
        }
    }
    let name = dev.peripherals[j].info().name.clone();
    let nbase = dev.peripherals[j].info().base_address;
    let nints = clone_interrupts(&dev.peripherals[j].info().interrupt);
    {
        let mi = moved.info_mut();
        mi.name = name;
        mi.base_address = nbase;
        mi.interrupt = nints;
    }
    let ghost q = moved;
    assert(moved_into(s[i as int], mid[j as int].info_spec(), q));
    dev.peripherals.set(j, moved);
    let ghost u = dev.peripherals@;
    assert(u =~= mid.update(j as int, q));
    let n = dev.peripherals.len();
    let mut k: usize = 0;
    while k < n
        invariant
            n == dev.peripherals@.len(),
            n == u.len(),
            k <= n,
            forall|m: int| k <= m < n ==> dev.peripherals@[m] == u[m],
            forall|m: int| 0 <= m < k ==> rederived(u[m], #[trigger] dev.peripherals@[m], pold@, pnew@),
            *dev == (Device { peripherals: dev.peripherals, ..*old(dev) }),
        decreases n - k,
    {
        let p = &mut dev.peripherals[k];
        rederive(p, pold, pnew);
        k += 1;
    }
    assert(named_at(s, pold@, i as int));
    assert(named_at(mid, pnew@, j as int));
    assert(rebased(s, dev.peripherals@, pold@, pnew@, i as int, j as int, x0, q));
    Ok(())
}

/// Processing peripheral `p` by the mapping `pmod` can fail: the mapping
/// cannot be read into edits, or an edit can fail (see [`pedits_applied`]).
pub open spec fn processing_may_fail(p: Peripheral, pmod: Seq<(YamlValue, YamlValue)>, update_fields: bool) -> bool {
    match peripheral_edits(pmod, p.info_spec().derived_from is Some) {
        None => true,
        Some(es) => exists|q: PeripheralInfo| pedits_applied(p.info_spec(), es, update_fields, q, false),
    }
}

/// What [`process_peripheral`] gives: the device `b` from `a`, where it succeeds
/// when `ok`.
pub open spec fn processed_result(a: Device, pspec: Seq<char>, pmod: Seq<(YamlValue, YamlValue)>, update_fields: bool, b: Device, ok: bool) -> bool {
    &&& (!names_testable(a.peripherals@, pspec) ==> !ok)
    &&& (!(exists|k: int| 0 <= k < a.peripherals@.len() && peripheral_matches(a.peripherals@[k], pspec))
        ==> !ok)
    &&& (!ok && names_testable(a.peripherals@, pspec) && (exists|k: int|
        0 <= k < a.peripherals@.len() && peripheral_matches(a.peripherals@[k], pspec)) ==> exists|k: int|
        0 <= k < a.peripherals@.len() && peripheral_matches(a.peripherals@[k], pspec) && processing_may_fail(
            #[trigger] a.peripherals@[k],
            pmod,
            update_fields,
        ))
    &&& (ok ==> {
        &&& b.peripherals@.len() == a.peripherals@.len()
        &&& forall|k: int|
            0 <= k < a.peripherals@.len() ==> if peripheral_matches(a.peripherals@[k], pspec) {
                peripheral_processed(
                    a.peripherals@[k],
                    #[trigger] b.peripherals@[k],
                    pmod,
                    update_fields,
                )
            } else {
                b.peripherals@[k] == a.peripherals@[k]
            }
        &&& b == (Device { peripherals: b.peripherals, ..a })
    })
}

/// Work through a peripheral, handling all registers: every peripheral
/// that `pspec` matches is processed by the mapping (see
/// [`crate::patch::peripheral_process::process`]); the others stay. Fails
/// where a name cannot be tested, where no peripheral matches, or where the
/// processing of a matched peripheral fails (see [`processing_may_fail`]);
/// the device is then left in an unspecified state.
pub fn process_peripheral(dev: &mut Device, pspec: &str, pmod: &Vec<(YamlValue, YamlValue)>, update_fields: bool) -> (r: Result<
    (),
    PatchError,
>)
    ensures
        processed_result(*old(dev), pspec@, pmod@, update_fields, *final(dev), r is Ok),
{
    if !check_names(&dev.peripherals, pspec) {
        return Err(PatchError::InvalidGlob(owned(pspec)));
    }
    let ghost s = dev.peripherals@;
    let n = dev.peripherals.len();
    let mut count: usize = 0;
    let mut k: usize = 0;
    while k < n
        invariant
            n == dev.peripherals@.len(),
            n == s.len(),
            k <= n,
            count <= k,
            s == old(dev).peripherals@,
            names_testable(s, pspec@),
            forall|j: int| k <= j < n ==> dev.peripherals@[j] == s[j],
            forall|j: int|
                0 <= j < k ==> if peripheral_matches(s[j], pspec@) {
                    peripheral_processed(s[j], #[trigger] dev.peripherals@[j], pmod@, update_fields)
                } else {
                    dev.peripherals@[j] == s[j]
                },
            (count == 0) == !(exists|j: int| 0 <= j < k && peripheral_matches(s[j], pspec@)),
            *dev == (Device { peripherals: dev.peripherals, ..*old(dev) }),
        decreases n - k,
    {
        assert(dev.peripherals@[k as int] == s[k as int]);
        assert(matchname_spec(s[k as int].info_spec().name@, pspec@) is Some);
        if matchname(dev.peripherals[k].info().name.as_str(), pspec) {
            let ghost before = dev.peripherals@;
            let p = &mut dev.peripherals[k];
            let info = p.info_mut();
            match crate::patch::peripheral_process::process(info, pmod, update_fields) {
                Ok(()) => {},
                Err(e) => {
                    proof {
                        let q = dev.peripherals@[k as int].info_spec();
                        if let Some(es) = peripheral_edits(pmod@, s[k as int].info_spec().derived_from is Some) {
                            assert(pedits_applied(s[k as int].info_spec(), es, update_fields, q, false));
                        }
                        assert(processing_may_fail(s[k as int], pmod@, update_fields));
                    }
                    return Err(e);
                },
            }
            assert(peripheral_processed(s[k as int], dev.peripherals@[k as int], pmod@, update_fields));
            assert forall|j: int| 0 <= j < n && j != k implies dev.peripherals@[j] == before[j] by {}
            count += 1;
        }
        k += 1;
    }
    if count == 0 {
        return Err(PatchError::NotFound(owned(pspec)));
    }
    Ok(())
}

/// `q` is peripheral `p` processed by the mapping `pmod` (see
/// [`pedits_applied`]).
pub open spec fn peripheral_processed(p: Peripheral, q: Peripheral, pmod: Seq<(YamlValue, YamlValue)>, update_fields: bool) -> bool {
    &&& shape_kept(p, q)
    &&& peripheral_edits(pmod, p.info_spec().derived_from is Some) matches Some(es)
    &&& pedits_applied(p.info_spec(), es, update_fields, q.info_spec(), true)
}

/// The value of the entry with the text key `key`, read as a flag.
pub open spec fn key_flag(h: Seq<(YamlValue, YamlValue)>, key: Seq<char>) -> Option<bool> {
    match get_key_spec(h, key) {
        Some(v) => flag_spec(model(v)),
        None => None,
    }
}

/// `b` is the cpu builder that a mapping describes: its name, revision,
/// endianness, MPU and FPU, priority bits and vendor systick, where given
/// (an endianness only where known).
pub open spec fn cpu_builder_of(h: Seq<(YamlValue, YamlValue)>, b: CpuBuilder) -> bool {
    &&& opt_chars(b.name) == key_text(h, "name"@)
    &&& opt_chars(b.revision) == key_text(h, "revision"@)
    &&& b.endian == match key_text(h, "endian"@) {
        Some(e) => Endian::from_str_spec(e),
        None => None,
    }
    &&& b.mpu_present == key_flag(h, "mpuPresent"@)
    &&& b.fpu_present == key_flag(h, "fpuPresent"@)
    &&& b.nvic_priority_bits == match key_number(h, "nvicPrioBits"@) {
        Some(v) => Some(v as u32),
        None => None,
    }
    &&& b.has_vendor_systick == key_flag(h, "vendorSystickConfig"@)
    &&& b == CpuBuilder {
        name: b.name,
        revision: b.revision,
        endian: b.endian,
        mpu_present: b.mpu_present,
        fpu_present: b.fpu_present,
        nvic_priority_bits: b.nvic_priority_bits,
        has_vendor_systick: b.has_vendor_systick,
        ..CpuBuilder::empty()
    }
}

/// The mapping gives every value that a new cpu needs.
pub open spec fn cpu_complete(h: Seq<(YamlValue, YamlValue)>) -> bool {
    &&& key_text(h, "name"@) is Some
    &&& key_text(h, "revision"@) is Some
    &&& key_text(h, "endian"@) matches Some(e) && Endian::from_str_spec(e) is Some
    &&& key_flag(h, "mpuPresent"@) is Some
    &&& key_flag(h, "fpuPresent"@) is Some
    &&& key_number(h, "nvicPrioBits"@) is Some
    &&& key_flag(h, "vendorSystickConfig"@) is Some
}

/// The cpu builder that a mapping describes (see [`cpu_builder_of`]).
fn make_cpu(cmod: &Vec<(YamlValue, YamlValue)>) -> (r: CpuBuilder)
    ensures
        cpu_builder_of(cmod@, r),
{
    proof {
        reveal_strlit("name");
        reveal_strlit("revision");
        reveal_strlit("endian");
        reveal_strlit("mpuPresent");
        reveal_strlit("fpuPresent");
        reveal_strlit("nvicPrioBits");
        reveal_strlit("vendorSystickConfig");
    }
    let mut cpu = Cpu::builder();
    if let Some(name) = get_str(cmod, "name") {
        cpu = cpu.name(owned(name));
    }
    if let Some(revision) = get_str(cmod, "revision") {
        cpu = cpu.revision(owned(revision));
    }
    if let Some(e) = get_str(cmod, "endian") {
        if let Some(endian) = Endian::parse_str(e) {
            cpu = cpu.endian(endian);
        }
    }
    if let Some(mpu_present) = get_bool(cmod, "mpuPresent") {
        cpu = cpu.mpu_present(mpu_present);
    }
    if let Some(fpu_present) = get_bool(cmod, "fpuPresent") {
        cpu = cpu.fpu_present(fpu_present);
    }
    if let Some(bits) = get_i64(cmod, "nvicPrioBits") {
        cpu = cpu.nvic_priority_bits(bits as u32);
    }
    if let Some(has_vendor_systick) = get_bool(cmod, "vendorSystickConfig") {
        cpu = cpu.has_vendor_systick(has_vendor_systick);
    }
    cpu
}

/// What [`modify_cpu`] gives: the device `b` from `a`, where it succeeds
/// when `ok`.
pub open spec fn cpu_result(a: Device, cmod: Seq<(YamlValue, YamlValue)>, b: Device, ok: bool) -> bool {
    &&& (a.cpu is Some ==> ok)
    &&& (a.cpu is None ==> (ok <==> cpu_complete(cmod)))
    &&& (!ok ==> b == a)
    &&& (ok ==> exists|cb: CpuBuilder|
        {
            &&& cpu_builder_of(cmod, cb)
            &&& b.cpu == Some(
                match a.cpu {
                    Some(c) => c.modified(cb),
                    None => cb.built(),
                },
            )
            &&& b == (Device { cpu: b.cpu, ..a })
        })
}

/// Modify the `cpu` node inside `device` according to `mod`: an existing
/// cpu takes each value that the mapping gives (see [`cpu_builder_of`]);
/// otherwise the cpu is built from the mapping, which fails where it does
/// not give all the values a cpu needs, leaving the device as it is.
pub fn modify_cpu(dev: &mut Device, cmod: &Vec<(YamlValue, YamlValue)>) -> (r: Result<(), PatchError>)
    ensures
        cpu_result(*old(dev), cmod@, *final(dev), r is Ok),
{
    let b = make_cpu(cmod);
    let ghost b0 = b;
    match &mut dev.cpu {
        Some(c) => {
            let _ = c.modify_from(b, VAL_LVL);
        },
        None => {
            let c = match b.build(VAL_LVL) {
                Ok(c) => c,
                Err(e) => return Err(PatchError::Invalid(e)),
            };
            dev.cpu = Some(c);
        },
    }
    assert(cpu_builder_of(cmod@, b0));
    Ok(())
}

/// Deleting leaves no peripheral that the pattern matches, and keeps the
/// others in their order.
pub proof fn lemma_kept_no_match(s: Seq<Peripheral>, spec: Seq<char>)
    ensures
        kept(s, spec).len() <= s.len(),
        forall|i: int| 0 <= i < kept(s, spec).len() ==> !peripheral_matches(#[trigger] kept(s, spec)[i], spec),
        forall|i: int|
            0 <= i < s.len() && !peripheral_matches(s[i], spec) ==> kept(s, spec).contains(#[trigger] s[i]),
    decreases s.len(),
{
    if s.len() > 0 {
        let d = s.drop_last();
        lemma_kept_no_match(d, spec);
        assert forall|i: int| 0 <= i < s.len() && !peripheral_matches(s[i], spec) implies kept(s, spec).contains(
            #[trigger] s[i],
        ) by {
            if i < s.len() - 1 {
                assert(s[i] == d[i]);
                let k = choose|k: int| 0 <= k < kept(d, spec).len() && kept(d, spec)[k] == d[i];
                if !peripheral_matches(s.last(), spec) {
                    assert(kept(s, spec)[k] == d[i]);
                }
            } else {
                assert(kept(s, spec).last() == s[i]);
            }
        }
    }
}

} // verus!
