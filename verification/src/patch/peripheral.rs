//! The edits that a patch file makes to the interrupts and registers of a
//! peripheral.
use vstd::prelude::*;

use crate::field::opt_chars;
use crate::patch::error::PatchError;
use crate::patch::make::{
    key_number, key_text, make_interrupt, make_register, nonempty_chars, register_builder_of, register_fields_ok,
    register_properties_of, VAL_LVL,
};
use crate::patch::names::{
    checked_matchname, end_stripped, matchname, matchname_spec, start_stripped, strip_end_fails, strip_name_end,
    strip_name_start, strip_start_fails,
};
use crate::patch::process::{edits_applied, field_edits, process};
use crate::patch::register::qualified;
use crate::patch::yaml::{get_i64, get_str, YamlValue};
use crate::peripheral::elements_of;
use crate::register::properties_outcome;
use crate::registercluster::{lemma_seq_registers_split, rc_registers, seq_registers};
use crate::patch::yaml::get_key_spec;
use crate::text::{owned, str_eq};
use crate::{Cluster, ClusterInfo, Interrupt, PeripheralInfo, Register, RegisterCluster, RegisterInfo, RegisterInfoBuilder};

verus! {

// ---------------------------------------------------------------------------
// Interrupts
// ---------------------------------------------------------------------------

/// Every interrupt name of `s` can be tested against `spec`.
pub open spec fn interrupts_testable(s: Seq<Interrupt>, spec: Seq<char>) -> bool {
    forall|i: int| 0 <= i < s.len() ==> (#[trigger] matchname_spec(s[i].name@, spec)) is Some
}

/// The interrupts of `s` that `spec` does not match, in order.
pub open spec fn kept_interrupts(s: Seq<Interrupt>, spec: Seq<char>) -> Seq<Interrupt>
    decreases s.len(),
{
    if s.len() == 0 {
        s
    } else if matchname_spec(s.last().name@, spec) == Some(true) {
        kept_interrupts(s.drop_last(), spec)
    } else {
        kept_interrupts(s.drop_last(), spec).push(s.last())
    }
}

/// Whether every interrupt name of `s` can be tested against `spec`.
fn check_interrupts(s: &Vec<Interrupt>, spec: &str) -> (r: bool)
    ensures
        r == interrupts_testable(s@, spec@),
{
    let mut i: usize = 0;
    while i < s.len()
        invariant
            i <= s@.len(),
            forall|j: int| 0 <= j < i ==> (#[trigger] matchname_spec(s@[j].name@, spec@)) is Some,
        decreases s@.len() - i,
    {
        if checked_matchname(s[i].name.as_str(), spec).is_none() {
            return false;
        }
        i += 1;
    }
    true
}

/// Delete interrupts matched by ispec. Fails, leaving the peripheral as it
/// was, when a name cannot be tested.
pub fn delete_interrupt(p: &mut PeripheralInfo, ispec: &str) -> (r: Result<(), PatchError>)
    ensures
        r is Ok <==> interrupts_testable(old(p).interrupt@, ispec@),
        r is Err ==> *final(p) == *old(p),
        r is Ok ==> final(p).interrupt@ == kept_interrupts(old(p).interrupt@, ispec@) && *final(p) == (PeripheralInfo {
            interrupt: final(p).interrupt,
            ..*old(p)
        }),
{
    if !check_interrupts(&p.interrupt, ispec) {
        return Err(PatchError::InvalidGlob(owned(ispec)));
    }
    let mut list: Vec<Interrupt> = Vec::new();
    std::mem::swap(&mut list, &mut p.interrupt);
    let ghost s = list@;
    let n = list.len();
    let mut out: Vec<Interrupt> = Vec::new();
    let mut i: usize = 0;
    while i < n
        invariant
            n == s.len(),
            i <= n,
            list@ == s.skip(i as int),
            interrupts_testable(s, ispec@),
            out@ == kept_interrupts(s.take(i as int), ispec@),
        decreases n - i,
    {
        let x = list.remove(0);
        assert(x == s[i as int]);
        assert(s.take(i + 1).drop_last() =~= s.take(i as int));
        assert(s.take(i + 1).last() == s[i as int]);
        assert(matchname_spec(s[i as int].name@, ispec@) is Some);
        if !matchname(x.name.as_str(), ispec) {
            out.push(x);
        }
        assert(list@ =~= s.skip(i + 1));
        i += 1;
    }
    assert(s.take(n as int) =~= s);
    p.interrupt = out;
    Ok(())
}

/// Some interrupt of `s` is named `name`.
pub open spec fn interrupt_named(s: Seq<Interrupt>, name: Seq<char>) -> bool {
    exists|i: int| 0 <= i < s.len() && (#[trigger] s[i]).name@ == name
}

/// Add iname given by iadd to ptag: an interrupt named `iname` with the
/// description and the value of the mapping, after the others. Fails,
/// leaving the peripheral as it was, when an interrupt has that name or the
/// mapping gives no value.
pub fn add_interrupt(p: &mut PeripheralInfo, iname: &str, iadd: &Vec<(YamlValue, YamlValue)>) -> (r: Result<(), PatchError>)
    ensures
        r is Ok <==> !interrupt_named(old(p).interrupt@, iname@) && key_number(iadd@, "value"@) is Some,
        r is Err ==> *final(p) == *old(p),
        r is Ok ==> {
            let t = final(p).interrupt@;
            &&& t.len() == old(p).interrupt@.len() + 1
            &&& t.drop_last() == old(p).interrupt@
            &&& t.last().name@ == iname@
            &&& opt_chars(t.last().description) == key_text(iadd@, "description"@)
            &&& t.last().value == key_number(iadd@, "value"@)->0 as u32
            &&& *final(p) == (PeripheralInfo { interrupt: final(p).interrupt, ..*old(p) })
        },
{
    let mut i: usize = 0;
    while i < p.interrupt.len()
        invariant
            i <= p.interrupt@.len(),
            forall|j: int| 0 <= j < i ==> (#[trigger] p.interrupt@[j]).name@ != iname@,
        decreases p.interrupt@.len() - i,
    {
        if str_eq(p.interrupt[i].name.as_str(), iname) {
            return Err(PatchError::Exists(qualified(p.name.as_str(), iname)));
        }
        i += 1;
    }
    proof {
        reveal_strlit("value");
    }
    if get_i64(iadd, "value").is_none() {
        return Err(PatchError::Value(owned(iname)));
    }
    let x = make_interrupt(iname, iadd);
    p.interrupt.push(x);
    assert(p.interrupt@.drop_last() =~= old(p).interrupt@);
    Ok(())
}

/// `j` is interrupt `i` modified by the mapping `h` where `ispec` matches
/// it: the name, description (an empty one removing it) and value that the
/// mapping gives replace those of the interrupt.
pub open spec fn interrupt_modified(i: Interrupt, j: Interrupt, ispec: Seq<char>, h: Seq<(YamlValue, YamlValue)>) -> bool {
    if matchname_spec(i.name@, ispec) == Some(true) {
        &&& j.name@ == match key_text(h, "name"@) {
            Some(n) => n,
            None => i.name@,
        }
        &&& opt_chars(j.description) == match key_text(h, "description"@) {
            Some(d) => nonempty_chars(Some(d)),
            None => opt_chars(i.description),
        }
        &&& j.value == match key_number(h, "value"@) {
            Some(v) => v as u32,
            None => i.value,
        }
    } else {
        j == i
    }
}

/// Modify ispec according to imod (see [`interrupt_modified`]). Fails,
/// leaving the peripheral as it was, when a name cannot be tested.
pub fn modify_interrupt(p: &mut PeripheralInfo, ispec: &str, imod: &Vec<(YamlValue, YamlValue)>) -> (r: Result<(), PatchError>)
    ensures
        r is Ok <==> interrupts_testable(old(p).interrupt@, ispec@),
        r is Err ==> *final(p) == *old(p),
        r is Ok ==> {
            &&& final(p).interrupt@.len() == old(p).interrupt@.len()
            &&& forall|i: int|
                0 <= i < old(p).interrupt@.len() ==> interrupt_modified(
                    old(p).interrupt@[i],
                    #[trigger] final(p).interrupt@[i],
                    ispec@,
                    imod@,
                )
            &&& *final(p) == (PeripheralInfo { interrupt: final(p).interrupt, ..*old(p) })
        },
{
    if !check_interrupts(&p.interrupt, ispec) {
        return Err(PatchError::InvalidGlob(owned(ispec)));
    }
    proof {
        reveal_strlit("name");
        reveal_strlit("description");
        reveal_strlit("value");
    }
    let name = get_str(imod, "name");
    let description = get_str(imod, "description");
    let value = get_i64(imod, "value");
    let ghost s = p.interrupt@;
    let n = p.interrupt.len();
    let mut i: usize = 0;
    while i < n
        invariant
            n == s.len(),
            n == p.interrupt@.len(),
            i <= n,
            interrupts_testable(s, ispec@),
            *p == (PeripheralInfo { interrupt: p.interrupt, ..*old(p) }),
            s == old(p).interrupt@,
            match key_text(imod@, "name"@) {
                Some(t) => name matches Some(x) && x@ == t,
                None => name is None,
            },
            match key_text(imod@, "description"@) {
                Some(t) => description matches Some(x) && x@ == t,
                None => description is None,
            },
            value == match key_number(imod@, "value"@) {
                Some(v) => Some(v),
                None => None,
            },
            forall|j: int| i <= j < n ==> p.interrupt@[j] == s[j],
            forall|j: int| 0 <= j < i ==> interrupt_modified(s[j], #[trigger] p.interrupt@[j], ispec@, imod@),
        decreases n - i,
    {
        assert(matchname_spec(s[i as int].name@, ispec@) is Some);
        if matchname(p.interrupt[i].name.as_str(), ispec) {
            let mut x = p.interrupt[i].clone();
            if let Some(t) = name {
                x.name = owned(t);
            }
            if let Some(d) = description {
                x.description = if d.unicode_len() == 0 {
                    None
                } else {
                    Some(owned(d))
                };
            }
            if let Some(v) = value {
                x.value = v as u32;
            }
            p.interrupt.set(i, x);
        }
        i += 1;
    }
    Ok(())
}

// ---------------------------------------------------------------------------
// Deleting and adding registers
// ---------------------------------------------------------------------------

/// Element `rc` is a register that `spec` matches.
pub open spec fn register_matches(rc: RegisterCluster, spec: Seq<char>) -> bool {
    rc matches RegisterCluster::Register(r) && matchname_spec(r.info_spec().name@, spec) == Some(true)
}

/// The name of every register among `s` can be tested against `spec`.
pub open spec fn registers_testable(s: Seq<RegisterCluster>, spec: Seq<char>) -> bool {
    forall|i: int|
        0 <= i < s.len() ==> ((#[trigger] s[i]) matches RegisterCluster::Register(r) ==> matchname_spec(
            r.info_spec().name@,
            spec,
        ) is Some)
}

/// The elements of `s` but the registers that `spec` matches, in order.
pub open spec fn kept_elements(s: Seq<RegisterCluster>, spec: Seq<char>) -> Seq<RegisterCluster>
    decreases s.len(),
{
    if s.len() == 0 {
        s
    } else if register_matches(s.last(), spec) {
        kept_elements(s.drop_last(), spec)
    } else {
        kept_elements(s.drop_last(), spec).push(s.last())
    }
}

/// Whether the name of every register among `s` can be tested against
/// `spec`.
fn check_registers(s: &Vec<RegisterCluster>, spec: &str) -> (r: bool)
    ensures
        r == registers_testable(s@, spec@),
{
    let mut i: usize = 0;
    while i < s.len()
        invariant
            i <= s@.len(),
            forall|j: int|
                0 <= j < i ==> ((#[trigger] s@[j]) matches RegisterCluster::Register(r) ==> matchname_spec(
                    r.info_spec().name@,
                    spec@,
                ) is Some),
        decreases s@.len() - i,
    {
        match &s[i] {
            RegisterCluster::Register(r) => {
                if checked_matchname(r.info().name.as_str(), spec).is_none() {
                    return false;
                }
            },
            RegisterCluster::Cluster(_) => {},
        }
        i += 1;
    }
    true
}

/// Delete registers matched by rspec inside ptag: the registers among the
/// elements (not those inside clusters) that `rspec` matches. Fails,
/// leaving the peripheral as it was, when a name cannot be tested.
pub fn delete_register(p: &mut PeripheralInfo, rspec: &str) -> (r: Result<(), PatchError>)
    ensures
        r is Ok <==> registers_testable(elements_of(old(p).registers), rspec@),
        r is Err ==> *final(p) == *old(p),
        r is Ok ==> {
            &&& (final(p).registers is Some) == (old(p).registers is Some)
            &&& elements_of(final(p).registers) == kept_elements(elements_of(old(p).registers), rspec@)
            &&& *final(p) == (PeripheralInfo { registers: final(p).registers, ..*old(p) })
        },
{
    let regs = match p.registers.take() {
        Some(v) => v,
        None => {
            assert(kept_elements(Seq::<RegisterCluster>::empty(), rspec@) =~= Seq::<RegisterCluster>::empty());
            return Ok(());
        },
    };
    if !check_registers(&regs, rspec) {
        p.registers = Some(regs);
        return Err(PatchError::InvalidGlob(owned(rspec)));
    }
    let mut list = regs;
    let ghost s = list@;
    let n = list.len();
    let mut out: Vec<RegisterCluster> = Vec::new();
    let mut i: usize = 0;
    while i < n
        invariant
            n == s.len(),
            i <= n,
            list@ == s.skip(i as int),
            registers_testable(s, rspec@),
            out@ == kept_elements(s.take(i as int), rspec@),
        decreases n - i,
    {
        let x = list.remove(0);
        assert(x == s[i as int]);
        assert(s.take(i + 1).drop_last() =~= s.take(i as int));
        assert(s.take(i + 1).last() == s[i as int]);
        let drop = match &x {
            RegisterCluster::Register(r) => matchname(r.info().name.as_str(), rspec),
            RegisterCluster::Cluster(_) => false,
        };
        if !drop {
            out.push(x);
        }
        assert(list@ =~= s.skip(i + 1));
        i += 1;
    }
    assert(s.take(n as int) =~= s);
    p.registers = Some(out);
    Ok(())
}

/// Some register of `s`, at any depth, is named `name`.
pub open spec fn register_named(s: Seq<Register>, name: Seq<char>) -> bool {
    exists|i: int| 0 <= i < s.len() && (#[trigger] s[i]).info_spec().name@ == name
}

/// `x` is the register named `name` that the mapping `h` describes.
pub open spec fn described_register(h: Seq<(YamlValue, YamlValue)>, name: Seq<char>, x: RegisterInfo) -> bool {
    exists|b: RegisterInfoBuilder|
        register_builder_of(h, b) && x == (RegisterInfoBuilder { name: Some(x.name), ..b }).built() && x.name@ == name
}

/// The mapping `h` describes a register that can be built: its listed
/// fields can be built, it gives an address offset, and its properties
/// pass validation.
pub open spec fn register_addable(h: Seq<(YamlValue, YamlValue)>) -> bool {
    &&& register_fields_ok(h)
    &&& key_number(h, "addressOffset"@) is Some
    &&& properties_outcome(register_properties_of(h), VAL_LVL) is Ok
}

/// Add rname given by radd to ptag: a single register named `rname`, built
/// from the mapping `radd` (see [`register_builder_of`]), goes after the
/// other elements. Fails, leaving the peripheral as it was, exactly when a
/// register at any depth has that name, or the mapping describes no
/// register that can be built (see [`register_addable`]).
pub fn add_register(p: &mut PeripheralInfo, rname: &str, radd: &Vec<(YamlValue, YamlValue)>) -> (r: Result<(), PatchError>)
    ensures
        register_named(seq_registers(elements_of(old(p).registers)), rname@) ==> r matches Err(PatchError::Exists(_)),
        r is Ok <==> !register_named(seq_registers(elements_of(old(p).registers)), rname@) && register_addable(radd@),
        r is Err ==> *final(p) == *old(p),
        r is Ok ==> {
            let t = elements_of(final(p).registers);
            &&& final(p).registers is Some
            &&& t.len() == elements_of(old(p).registers).len() + 1
            &&& t.drop_last() == elements_of(old(p).registers)
            &&& t.last() matches RegisterCluster::Register(x) && x == Register::Single(x.info_spec())
                && described_register(radd@, rname@, x.info_spec())
            &&& *final(p) == (PeripheralInfo { registers: final(p).registers, ..*old(p) })
        },
{
    let all = p.all_registers();
    let mut i: usize = 0;
    while i < all.len()
        invariant
            i <= all@.len(),
            all@.len() == seq_registers(elements_of(p.registers)).len(),
            forall|j: int| 0 <= j < all@.len() ==> *all@[j] == seq_registers(elements_of(p.registers))[j],
            forall|j: int| 0 <= j < i ==> (#[trigger] seq_registers(elements_of(p.registers))[j]).info_spec().name@ != rname@,
        decreases all@.len() - i,
    {
        if str_eq(all[i].info().name.as_str(), rname) {
            assert(seq_registers(elements_of(p.registers))[i as int].info_spec().name@ == rname@);
            return Err(PatchError::Exists(qualified(p.name.as_str(), rname)));
        }
        i += 1;
    }
    let b = match make_register(radd) {
        Ok(b) => b,
        Err(e) => return Err(e),
    };
    let ghost b0 = b;
    proof {
        reveal_strlit("addressOffset");
    }
    let b = b.name(owned(rname));
    let x = match b.build(VAL_LVL) {
        Ok(x) => x,
        Err(e) => return Err(PatchError::Invalid(e)),
    };
    assert(x == (RegisterInfoBuilder { name: Some(x.name), ..b0 }).built());
    let rc = RegisterCluster::Register(Box::new(Register::Single(x)));
    match &mut p.registers {
        Some(v) => {
            v.push(rc);
        },
        None => {
            let mut v: Vec<RegisterCluster> = Vec::new();
            v.push(rc);
            p.registers = Some(v);
        },
    }
    proof {
        assert(elements_of(p.registers).drop_last() =~= elements_of(old(p).registers));
    }
    Ok(())
}

// ---------------------------------------------------------------------------
// Editing every register, at any depth
// ---------------------------------------------------------------------------

/// An edit of each register of a peripheral, at any depth.
pub enum RegisterEdit<'a> {
    /// Strip a prefix from the names and display names
    StripStart(&'a str),
    /// Strip a suffix from the names and display names
    StripEnd(&'a str),
    /// Modify the registers that a pattern matches by a mapping
    Modify(&'a str, &'a Vec<(YamlValue, YamlValue)>),
    /// Process the registers that a pattern matches with a register mapping
    Process(&'a str, &'a Vec<(YamlValue, YamlValue)>, bool),
}

/// The edit concerns register `r`: stripping concerns all, the others
/// those that their pattern matches.
pub open spec fn reg_matched(r: RegisterInfo, e: RegisterEdit) -> bool {
    match e {
        RegisterEdit::Modify(p, _) => matchname_spec(r.name@, p@) == Some(true),
        RegisterEdit::Process(p, _, _) => matchname_spec(r.name@, p@) == Some(true),
        _ => true,
    }
}

/// The edit cannot be applied to register `r`: a name cannot be stripped or
/// tested, the mapping cannot be read, or the modified properties are not
/// valid.
pub open spec fn reg_fails(r: RegisterInfo, e: RegisterEdit) -> bool {
    match e {
        RegisterEdit::StripStart(p) => strip_start_fails(r.name@, p@) || (r.display_name matches Some(d)
            && strip_start_fails(d@, p@)),
        RegisterEdit::StripEnd(p) => strip_end_fails(r.name@, p@) || (r.display_name matches Some(d)
            && strip_end_fails(d@, p@)),
        RegisterEdit::Modify(p, h) => matchname_spec(r.name@, p@) is None || (reg_matched(r, e) && (!register_fields_ok(
            h@,
        ) || properties_outcome(r.properties.modified(register_properties_of(h@)), VAL_LVL) is Err)),
        RegisterEdit::Process(p, h, u) => matchname_spec(r.name@, p@) is None || (reg_matched(r, e) && field_edits(
            h@,
            u,
        ) is None),
    }
}

/// The edit can fail on register `r`: it cannot be applied (see
/// [`reg_fails`]), or it processes `r` and an edit of its fields can fail
/// (see [`edits_applied`]).
pub open spec fn reg_may_fail(r: RegisterInfo, e: RegisterEdit) -> bool {
    ||| reg_fails(r, e)
    ||| match e {
        RegisterEdit::Process(_, h, u) => reg_matched(r, e) && match field_edits(h@, u) {
            Some(es) => exists|q: RegisterInfo| edits_applied(r, es, q, false),
            None => false,
        },
        _ => false,
    }
}

/// The edit fails exactly where it cannot be applied (see [`reg_fails`]):
/// it strips or modifies.
pub open spec fn fails_exactly(e: RegisterEdit) -> bool {
    !(e is Process)
}

/// Register `q` is `r` once edited.
pub open spec fn reg_done(r: RegisterInfo, e: RegisterEdit, q: RegisterInfo) -> bool {
    match e {
        RegisterEdit::StripStart(p) => {
            &&& q == (RegisterInfo { name: q.name, display_name: q.display_name, ..r })
            &&& start_stripped(r.name@, p@, q.name@)
            &&& match r.display_name {
                Some(d) => q.display_name matches Some(x) && start_stripped(d@, p@, x@),
                None => q.display_name is None,
            }
        },
        RegisterEdit::StripEnd(p) => {
            &&& q == (RegisterInfo { name: q.name, display_name: q.display_name, ..r })
            &&& end_stripped(r.name@, p@, q.name@)
            &&& match r.display_name {
                Some(d) => q.display_name matches Some(x) && end_stripped(d@, p@, x@),
                None => q.display_name is None,
            }
        },
        RegisterEdit::Modify(_, h) => if reg_matched(r, e) {
            exists|b: RegisterInfoBuilder| register_builder_of(h@, b) && q == r.modified(b)
        } else {
            q == r
        },
        RegisterEdit::Process(_, h, u) => if reg_matched(r, e) {
            edits_applied(r, field_edits(h@, u)->0, q, true)
        } else {
            q == r
        },
    }
}

/// The edit strips names.
pub open spec fn strips(e: RegisterEdit) -> bool {
    e is StripStart || e is StripEnd
}

/// Strips a name at its start or its end; `None` where it fails.
fn strip_text(t: &str, e: &RegisterEdit) -> (r: Option<String>)
    requires
        strips(*e),
    ensures
        r is None <==> match *e {
            RegisterEdit::StripStart(p) => strip_start_fails(t@, p@),
            RegisterEdit::StripEnd(p) => strip_end_fails(t@, p@),
            _ => false,
        },
        r matches Some(x) ==> match *e {
            RegisterEdit::StripStart(p) => start_stripped(t@, p@, x@),
            RegisterEdit::StripEnd(p) => end_stripped(t@, p@, x@),
            _ => false,
        },
{
    let o = match e {
        RegisterEdit::StripStart(p) => strip_name_start(t, p),
        RegisterEdit::StripEnd(p) => strip_name_end(t, p),
        _ => None,
    };
    match o {
        None => None,
        Some(Some(x)) => Some(x),
        Some(None) => Some(owned(t)),
    }
}

/// Applies the edit to one register; `Ok` tells whether it concerned it.
fn edit_info(x: &mut RegisterInfo, e: &RegisterEdit, pname: &str) -> (r: Result<bool, PatchError>)
    ensures
        reg_fails(*old(x), *e) ==> r is Err,
        fails_exactly(*e) ==> (r is Err <==> reg_fails(*old(x), *e)),
        r is Err ==> reg_may_fail(*old(x), *e),
        r matches Ok(m) ==> reg_done(*old(x), *e, *final(x)) && m == reg_matched(*old(x), *e),
{
    match e {
        RegisterEdit::StripStart(_) | RegisterEdit::StripEnd(_) => {
            let n = match strip_text(x.name.as_str(), e) {
                Some(n) => n,
                None => return Err(PatchError::Strip(owned(x.name.as_str()))),
            };
            let d = match &x.display_name {
                Some(d) => match strip_text(d.as_str(), e) {
                    Some(t) => Some(t),
                    None => return Err(PatchError::Strip(owned(d.as_str()))),
                },
                None => None,
            };
            x.name = n;
            x.display_name = d;
            Ok(true)
        },
        RegisterEdit::Modify(p, h) => {
            let m = match checked_matchname(x.name.as_str(), p) {
                Some(m) => m,
                None => return Err(PatchError::InvalidGlob(owned(p))),
            };
            if !m {
                return Ok(false);
            }
            let b = match make_register(h) {
                Ok(b) => b,
                Err(err) => return Err(err),
            };
            let ghost b0 = b;
            match x.modify_from(b, VAL_LVL) {
                Ok(()) => {
                    assert(register_builder_of(h@, b0) && *x == old(x).modified(b0));
                    Ok(true)
                },
                Err(err) => {
                    assert(reg_fails(*old(x), *e));
                    Err(PatchError::Invalid(err))
                },
            }
        },
        RegisterEdit::Process(p, h, u) => {
            let m = match checked_matchname(x.name.as_str(), p) {
                Some(m) => m,
                None => return Err(PatchError::InvalidGlob(owned(p))),
            };
            if !m {
                return Ok(false);
            }
            match process(x, h, pname, *u) {
                Ok(()) => Ok(true),
                Err(err) => {
                    proof {
                        if let Some(es) = field_edits(h@, *u) {
                            assert(edits_applied(*old(x), es, *x, false));
                        }
                    }
                    Err(err)
                },
            }
        },
    }
}

/// Register `b` is register `a` once edited: of the same kind and
/// dimensions.
pub open spec fn register_mapped(a: Register, b: Register, e: RegisterEdit) -> bool {
    &&& match a {
        Register::Single(_) => b is Single,
        Register::Array(_, d) => b matches Register::Array(_, f) && f == d,
    }
    &&& reg_done(a.info_spec(), e, b.info_spec())
}

/// Element `b` is element `a` once every register in it is edited.
pub open spec fn element_mapped(a: RegisterCluster, b: RegisterCluster, e: RegisterEdit) -> bool
    decreases a,
{
    match a {
        RegisterCluster::Register(x) => b matches RegisterCluster::Register(y) && register_mapped(*x, *y, e),
        RegisterCluster::Cluster(c) => b matches RegisterCluster::Cluster(d) && match *c {
            Cluster::Single(ci) => *d matches Cluster::Single(di) && di == (ClusterInfo {
                children: di.children,
                ..ci
            }) && tree_mapped(ci.children@, di.children@, e),
            Cluster::Array(ci, x) => *d matches Cluster::Array(di, y) && y == x && di == (ClusterInfo {
                children: di.children,
                ..ci
            }) && tree_mapped(ci.children@, di.children@, e),
        },
    }
}

/// The elements `t` are the elements `s` once every register in them is
/// edited.
pub open spec fn tree_mapped(s: Seq<RegisterCluster>, t: Seq<RegisterCluster>, e: RegisterEdit) -> bool
    decreases s,
{
    &&& s.len() == t.len()
    &&& forall|i: int| 0 <= i < s.len() ==> element_mapped(s[i], #[trigger] t[i], e)
}

/// The edit cannot be applied to some register in element `a`.
pub open spec fn element_fails(a: RegisterCluster, e: RegisterEdit) -> bool
    decreases a,
{
    match a {
        RegisterCluster::Register(x) => reg_fails(x.info_spec(), e),
        RegisterCluster::Cluster(c) => match *c {
            Cluster::Single(ci) => tree_fails(ci.children@, e),
            Cluster::Array(ci, _) => tree_fails(ci.children@, e),
        },
    }
}

/// The edit cannot be applied to some register among the elements `s`.
pub open spec fn tree_fails(s: Seq<RegisterCluster>, e: RegisterEdit) -> bool
    decreases s,
{
    exists|i: int| 0 <= i < s.len() && element_fails(#[trigger] s[i], e)
}

/// The edit can fail on some register in element `a` (see
/// [`reg_may_fail`]).
pub open spec fn element_may_fail(a: RegisterCluster, e: RegisterEdit) -> bool
    decreases a,
{
    match a {
        RegisterCluster::Register(x) => reg_may_fail(x.info_spec(), e),
        RegisterCluster::Cluster(c) => match *c {
            Cluster::Single(ci) => tree_may_fail(ci.children@, e),
            Cluster::Array(ci, _) => tree_may_fail(ci.children@, e),
        },
    }
}

/// The edit can fail on some register among the elements `s`.
pub open spec fn tree_may_fail(s: Seq<RegisterCluster>, e: RegisterEdit) -> bool
    decreases s,
{
    exists|i: int| 0 <= i < s.len() && element_may_fail(#[trigger] s[i], e)
}

/// The edit concerns some register in element `a`.
pub open spec fn element_matched(a: RegisterCluster, e: RegisterEdit) -> bool
    decreases a,
{
    match a {
        RegisterCluster::Register(x) => reg_matched(x.info_spec(), e),
        RegisterCluster::Cluster(c) => match *c {
            Cluster::Single(ci) => tree_matched(ci.children@, e),
            Cluster::Array(ci, _) => tree_matched(ci.children@, e),
        },
    }
}

/// The edit concerns some register among the elements `s`.
pub open spec fn tree_matched(s: Seq<RegisterCluster>, e: RegisterEdit) -> bool
    decreases s,
{
    exists|i: int| 0 <= i < s.len() && element_matched(#[trigger] s[i], e)
}

/// Applies the edit to every register in element `a`; `Ok` tells whether
/// it concerned one.
fn edit_element(a: RegisterCluster, e: &RegisterEdit, pname: &str) -> (r: Result<(RegisterCluster, bool), PatchError>)
    ensures
        element_fails(a, *e) ==> r is Err,
        fails_exactly(*e) ==> (r is Err <==> element_fails(a, *e)),
        r is Err ==> element_may_fail(a, *e),
        r matches Ok((b, m)) ==> element_mapped(a, b, *e) && m == element_matched(a, *e),
    decreases a,
{
    let ghost a0 = a;
    match a {
        RegisterCluster::Register(x) => {
            let ghost x0 = *x;
            let mut reg = *x;
            let m = match &mut reg {
                Register::Single(info) => edit_info(info, e, pname),
                Register::Array(info, _) => edit_info(info, e, pname),
            };
            match m {
                Ok(m) => Ok((RegisterCluster::Register(Box::new(reg)), m)),
                Err(err) => Err(err),
            }
        },
        RegisterCluster::Cluster(c) => {
            let cl = *c;
            match cl {
                Cluster::Single(ci) => {
                    let mut ci = ci;
                    let ghost ci0 = ci;
                    let mut ch: Vec<RegisterCluster> = Vec::new();
                    std::mem::swap(&mut ch, &mut ci.children);
                    assert(ch@ == ci0.children@);
                    proof {
                        assert(decreases_to!(a0 => ci0.children));
                    }
                    match edit_elements(ch, e, pname) {
                        Ok((t, m)) => {
                            ci.children = t;
                            Ok((RegisterCluster::Cluster(Box::new(Cluster::Single(ci))), m))
                        },
                        Err(err) => Err(err),
                    }
                },
                Cluster::Array(ci, d) => {
                    let mut ci = ci;
                    let ghost ci0 = ci;
                    let mut ch: Vec<RegisterCluster> = Vec::new();
                    std::mem::swap(&mut ch, &mut ci.children);
                    assert(ch@ == ci0.children@);
                    proof {
                        assert(decreases_to!(a0 => ci0.children));
                    }
                    match edit_elements(ch, e, pname) {
                        Ok((t, m)) => {
                            ci.children = t;
                            Ok((RegisterCluster::Cluster(Box::new(Cluster::Array(ci, d))), m))
                        },
                        Err(err) => Err(err),
                    }
                },
            }
        },
    }
}

/// Applies the edit to every register among the elements `v`; `Ok` tells
/// whether it concerned one.
fn edit_elements(v: Vec<RegisterCluster>, e: &RegisterEdit, pname: &str) -> (r: Result<
    (Vec<RegisterCluster>, bool),
    PatchError,
>)
    ensures
        tree_fails(v@, *e) ==> r is Err,
        fails_exactly(*e) ==> (r is Err <==> tree_fails(v@, *e)),
        r is Err ==> tree_may_fail(v@, *e),
        r matches Ok((t, m)) ==> tree_mapped(v@, t@, *e) && m == tree_matched(v@, *e),
    decreases v,
{
    let ghost s = v@;
    let mut list = v;
    let n = list.len();
    let mut out: Vec<RegisterCluster> = Vec::new();
    let mut any = false;
    let mut i: usize = 0;
    while i < n
        invariant
            n == s.len(),
            s == v@,
            i <= n,
            list@ == s.skip(i as int),
            out@.len() == i,
            forall|j: int| 0 <= j < i ==> element_mapped(s[j], #[trigger] out@[j], *e),
            forall|j: int| 0 <= j < i ==> !element_fails(#[trigger] s[j], *e),
            any == exists|j: int| 0 <= j < i && element_matched(#[trigger] s[j], *e),
        decreases n - i,
    {
        let x = list.remove(0);
        assert(x == s[i as int]);
        proof {
            assert(decreases_to!(v => v@));
            assert(decreases_to!(v@ => s[i as int]));
        }
        match edit_element(x, e, pname) {
            Ok((y, m)) => {
                out.push(y);
                any = any || m;
            },
            Err(err) => {
                proof {
                    if fails_exactly(*e) {
                        assert(element_fails(s[i as int], *e));
                    }
                    assert(element_may_fail(s[i as int], *e));
                }
                return Err(err);
            },
        }
        assert(list@ =~= s.skip(i + 1));
        i += 1;
    }
    Ok((out, any))
}

/// Applies the edit to every register of the peripheral; `Ok` tells
/// whether it concerned one.
fn edit_peripheral(p: &mut PeripheralInfo, e: &RegisterEdit) -> (r: Result<bool, PatchError>)
    ensures
        tree_fails(elements_of(old(p).registers), *e) ==> r is Err,
        fails_exactly(*e) ==> (r is Err <==> tree_fails(elements_of(old(p).registers), *e)),
        r is Err ==> tree_may_fail(elements_of(old(p).registers), *e),
        r matches Ok(m) ==> {
            &&& (final(p).registers is Some) == (old(p).registers is Some)
            &&& tree_mapped(elements_of(old(p).registers), elements_of(final(p).registers), *e)
            &&& m == tree_matched(elements_of(old(p).registers), *e)
            &&& *final(p) == (PeripheralInfo { registers: final(p).registers, ..*old(p) })
        },
{
    let pname = owned(p.name.as_str());
    match p.registers.take() {
        None => {
            proof {
                assert(tree_mapped(Seq::<RegisterCluster>::empty(), Seq::<RegisterCluster>::empty(), *e));
            }
            Ok(false)
        },
        Some(v) => match edit_elements(v, e, pname.as_str()) {
            Ok((t, m)) => {
                p.registers = Some(t);
                Ok(m)
            },
            Err(err) => Err(err),
        },
    }
}

/// Delete substring from the beginning of register names inside ptag: the
/// names and display names of all registers, at any depth, that the glob
/// `substr*` matches lose as many bytes as `substr` has. Fails where a name
/// cannot be stripped; the peripheral is then left in an unspecified state.
pub fn strip_start(p: &mut PeripheralInfo, substr: &str) -> (r: Result<(), PatchError>)
    ensures
        r is Err <==> tree_fails(elements_of(old(p).registers), RegisterEdit::StripStart(substr)),
        r is Ok ==> {
            &&& (final(p).registers is Some) == (old(p).registers is Some)
            &&& tree_mapped(
                elements_of(old(p).registers),
                elements_of(final(p).registers),
                RegisterEdit::StripStart(substr),
            )
            &&& *final(p) == (PeripheralInfo { registers: final(p).registers, ..*old(p) })
        },
{
    match edit_peripheral(p, &RegisterEdit::StripStart(substr)) {
        Ok(_) => Ok(()),
        Err(err) => Err(err),
    }
}

/// Delete substring from the ending of register names inside ptag: the
/// names and display names of all registers, at any depth, that the glob
/// `*substr` matches lose as many bytes as `substr` has. Fails where a name
/// cannot be stripped; the peripheral is then left in an unspecified state.
pub fn strip_end(p: &mut PeripheralInfo, substr: &str) -> (r: Result<(), PatchError>)
    ensures
        r is Err <==> tree_fails(elements_of(old(p).registers), RegisterEdit::StripEnd(substr)),
        r is Ok ==> {
            &&& (final(p).registers is Some) == (old(p).registers is Some)
            &&& tree_mapped(
                elements_of(old(p).registers),
                elements_of(final(p).registers),
                RegisterEdit::StripEnd(substr),
            )
            &&& *final(p) == (PeripheralInfo { registers: final(p).registers, ..*old(p) })
        },
{
    match edit_peripheral(p, &RegisterEdit::StripEnd(substr)) {
        Ok(_) => Ok(()),
        Err(err) => Err(err),
    }
}

/// Modify rspec inside ptag according to rmod: each register, at any
/// depth, that `rspec` matches is modified by the register builder of the
/// mapping (see [`register_builder_of`]). Fails exactly where a name
/// cannot be tested, the mapping cannot be read while a register matches,
/// or the properties of a modified register are not valid (see
/// [`reg_fails`]); the peripheral is then left in an unspecified state.
pub fn modify_register(p: &mut PeripheralInfo, rspec: &str, rmod: &Vec<(YamlValue, YamlValue)>) -> (r: Result<(), PatchError>)
    ensures
        r is Err <==> tree_fails(elements_of(old(p).registers), RegisterEdit::Modify(rspec, rmod)),
        r is Ok ==> {
            &&& (final(p).registers is Some) == (old(p).registers is Some)
            &&& tree_mapped(
                elements_of(old(p).registers),
                elements_of(final(p).registers),
                RegisterEdit::Modify(rspec, rmod),
            )
            &&& *final(p) == (PeripheralInfo { registers: final(p).registers, ..*old(p) })
        },
{
    match edit_peripheral(p, &RegisterEdit::Modify(rspec, rmod)) {
        Ok(_) => Ok(()),
        Err(err) => Err(err),
    }
}

/// Work through a register, handling all fields: each register, at any
/// depth, that `rspec` matches is processed with the mapping (see
/// [`crate::patch::process::process`]). Fails where a name cannot be
/// tested, the mapping cannot be read while a register matches, the
/// processing of a register fails (see [`reg_may_fail`]), or no register
/// matches; the peripheral is then left in an unspecified state.
pub fn process_register(p: &mut PeripheralInfo, rspec: &str, rmod: &Vec<(YamlValue, YamlValue)>, update_fields: bool) -> (r: Result<
    (),
    PatchError,
>)
    ensures
        tree_fails(elements_of(old(p).registers), RegisterEdit::Process(rspec, rmod, update_fields)) ==> r is Err,
        !tree_matched(elements_of(old(p).registers), RegisterEdit::Process(rspec, rmod, update_fields)) ==> r is Err,
        r is Err ==> tree_may_fail(elements_of(old(p).registers), RegisterEdit::Process(rspec, rmod, update_fields))
            || !tree_matched(elements_of(old(p).registers), RegisterEdit::Process(rspec, rmod, update_fields)),
        r is Ok ==> {
            &&& (final(p).registers is Some) == (old(p).registers is Some)
            &&& tree_mapped(
                elements_of(old(p).registers),
                elements_of(final(p).registers),
                RegisterEdit::Process(rspec, rmod, update_fields),
            )
            &&& *final(p) == (PeripheralInfo { registers: final(p).registers, ..*old(p) })
        },
{
    match edit_peripheral(p, &RegisterEdit::Process(rspec, rmod, update_fields)) {
        Ok(true) => Ok(()),
        Ok(false) => Err(PatchError::NotFound(qualified(p.name.as_str(), rspec))),
        Err(err) => Err(err),
    }
}

// ---------------------------------------------------------------------------
// Deriving a register from another
// ---------------------------------------------------------------------------

/// Modify the clusters that `cspec` matches: not supported, so it always
/// fails and leaves the peripheral as it is.
pub fn modify_cluster(p: &mut PeripheralInfo, cspec: &str, cmod: &Vec<(YamlValue, YamlValue)>) -> (r: Result<(), PatchError>)
    ensures
        r is Err,
        *final(p) == *old(p),
{
    Err(PatchError::Unsupported(qualified(p.name.as_str(), cspec)))
}

/// `k` is the position of the first register of `s` named `name`.
pub open spec fn is_first_named(s: Seq<Register>, name: Seq<char>, k: int) -> bool {
    &&& 0 <= k < s.len()
    &&& s[k].info_spec().name@ == name
    &&& forall|j: int| 0 <= j < k ==> (#[trigger] s[j]).info_spec().name@ != name
}

/// The position of the first register of `s` named `name`.
pub open spec fn first_named_at(s: Seq<Register>, name: Seq<char>) -> int {
    choose|k: int| is_first_named(s, name, k)
}

/// `y` is `x` put in the place of `old`: with the address offset of `old`.
pub open spec fn placed(x: Register, old: Register, y: Register) -> bool {
    &&& match x {
        Register::Single(_) => y is Single,
        Register::Array(_, d) => y matches Register::Array(_, e) && e == d,
    }
    &&& y.info_spec() == (RegisterInfo { address_offset: old.info_spec().address_offset, ..x.info_spec() })
}

/// `t` holds the registers `s` with the first one named `name` replaced by
/// `x` put in its place.
pub open spec fn first_replaced(s: Seq<Register>, t: Seq<Register>, name: Seq<char>, x: Register) -> bool {
    let k = first_named_at(s, name);
    &&& register_named(s, name)
    &&& t.len() == s.len()
    &&& placed(x, s[k], t[k])
    &&& forall|j: int| 0 <= j < s.len() && j != k ==> t[j] == s[j]
}

proof fn lemma_first_named(s: Seq<Register>, name: Seq<char>, k: int)
    requires
        is_first_named(s, name, k),
    ensures
        first_named_at(s, name) == k,
{
    let c = first_named_at(s, name);
    assert(is_first_named(s, name, c));
    if c < k {
        assert(s[c].info_spec().name@ != name);
    }
    if k < c {
        assert(s[k].info_spec().name@ != name);
    }
}

/// Puts `x` in the place of `old`.
fn place(x: Register, old: &Register) -> (y: Register)
    ensures
        placed(x, *old, y),
{
    let mut y = x;
    let a = old.info().address_offset;
    let info = y.info_mut();
    info.address_offset = a;
    y
}

/// A register named `name` has a first position.
proof fn lemma_first_exists(s: Seq<Register>, name: Seq<char>)
    requires
        register_named(s, name),
    ensures
        is_first_named(s, name, first_named_at(s, name)),
    decreases s.len(),
{
    if s[0].info_spec().name@ == name {
        assert(is_first_named(s, name, 0));
    } else {
        let t = s.skip(1);
        let i = choose|i: int| 0 <= i < s.len() && (#[trigger] s[i]).info_spec().name@ == name;
        assert(t[i - 1] == s[i]);
        lemma_first_exists(t, name);
        let k = first_named_at(t, name);
        assert forall|j: int| 0 <= j < k + 1 implies (#[trigger] s[j]).info_spec().name@ != name by {
            if j > 0 {
                assert(s[j] == t[j - 1]);
            }
        }
        assert(s[k + 1] == t[k]);
        assert(is_first_named(s, name, k + 1));
    }
}

/// Whether some register in element `a` is named `name`.
fn element_has_named(a: &RegisterCluster, name: &str) -> (r: bool)
    ensures
        r == register_named(rc_registers(*a), name@),
{
    let mut all: Vec<&Register> = Vec::new();
    match a {
        RegisterCluster::Register(b) => {
            all.push(&**b);
            assert(rc_registers(*a) =~= seq![**b]);
        },
        RegisterCluster::Cluster(c) => {
            crate::registercluster::collect_registers(&c.info().children, &mut all);
        },
    }
    let mut i: usize = 0;
    while i < all.len()
        invariant
            i <= all@.len(),
            all@.len() == rc_registers(*a).len(),
            forall|j: int| 0 <= j < all@.len() ==> *all@[j] == rc_registers(*a)[j],
            forall|j: int| 0 <= j < i ==> (#[trigger] rc_registers(*a)[j]).info_spec().name@ != name@,
        decreases all@.len() - i,
    {
        if str_eq(all[i].info().name.as_str(), name) {
            assert(rc_registers(*a)[i as int].info_spec().name@ == name@);
            return true;
        }
        i += 1;
    }
    false
}

/// Replaces the first register of element `a` named `name` by `x` put in
/// its place.
fn replace_in_element(a: RegisterCluster, name: &str, x: Register) -> (r: RegisterCluster)
    requires
        register_named(rc_registers(a), name@),
    ensures
        first_replaced(rc_registers(a), rc_registers(r), name@, x),
    decreases a,
{
    let ghost a0 = a;
    match a {
        RegisterCluster::Register(b) => {
            let ghost old_reg = *b;
            proof {
                assert(rc_registers(a0) == seq![old_reg]);
                assert(seq![old_reg][0] == old_reg);
                lemma_first_named(seq![old_reg], name@, 0);
            }
            let y = place(x, &*b);
            let rc = RegisterCluster::Register(Box::new(y));
            assert(rc_registers(rc) == seq![y]);
            rc
        },
        RegisterCluster::Cluster(c) => {
            let cl = *c;
            match cl {
                Cluster::Single(ci) => {
                    let mut ci = ci;
                    let ghost ci0 = ci;
                    let mut ch: Vec<RegisterCluster> = Vec::new();
                    std::mem::swap(&mut ch, &mut ci.children);
                    proof {
                        assert(decreases_to!(a0 => ci0.children));
                    }
                    let t = replace_first(ch, name, x);
                    ci.children = t.0;
                    match t.1 {
                        Some(_) => {
                            assert(false);
                        },
                        None => {},
                    }
                    RegisterCluster::Cluster(Box::new(Cluster::Single(ci)))
                },
                Cluster::Array(ci, d) => {
                    let mut ci = ci;
                    let ghost ci0 = ci;
                    let mut ch: Vec<RegisterCluster> = Vec::new();
                    std::mem::swap(&mut ch, &mut ci.children);
                    proof {
                        assert(decreases_to!(a0 => ci0.children));
                    }
                    let t = replace_first(ch, name, x);
                    ci.children = t.0;
                    match t.1 {
                        Some(_) => {
                            assert(false);
                        },
                        None => {},
                    }
                    RegisterCluster::Cluster(Box::new(Cluster::Array(ci, d)))
                },
            }
        },
    }
}

/// Replaces the first register among the elements `v` named `name` (in
/// document order) by `x` put in its place; hands `x` back, with the
/// elements as they were, when none is so named.
fn replace_first(v: Vec<RegisterCluster>, name: &str, x: Register) -> (r: (Vec<RegisterCluster>, Option<Register>))
    ensures
        match r.1 {
            Some(y) => y == x && r.0@ == v@ && !register_named(seq_registers(v@), name@),
            None => first_replaced(seq_registers(v@), seq_registers(r.0@), name@, x),
        },
    decreases v,
{
    let ghost s = v@;
    let mut list = v;
    let n = list.len();
    let mut out: Vec<RegisterCluster> = Vec::new();
    let mut cur: Option<Register> = Some(x);
    let mut i: usize = 0;
    while i < n
        invariant
            n == s.len(),
            s == v@,
            i <= n,
            list@ == s.skip(i as int),
            match cur {
                Some(y) => y == x && out@ == s.take(i as int) && !register_named(seq_registers(s.take(i as int)), name@),
                None => ({
                    let p = seq_registers(s.take(i as int));
                    &&& first_replaced(p, seq_registers(out@), name@, x)
                    &&& first_named_at(seq_registers(s), name@) == first_named_at(p, name@)
                }),
            },
        decreases n - i,
    {
        let a = list.remove(0);
        assert(a == s[i as int]);
        proof {
            assert(decreases_to!(v => v@));
            assert(decreases_to!(v@ => s[i as int]));
            lemma_seq_registers_split(s, i as int);
            crate::registercluster::lemma_seq_registers_append(s.take(i + 1), s.skip(i + 1));
            assert(s.take(i + 1) + s.skip(i + 1) =~= s);
        }
        let ghost before = out@;
        let ghost p = seq_registers(s.take(i as int));
        let ghost q = rc_registers(a);
        let ghost all = seq_registers(s);
        let has = match cur {
            Some(_) => element_has_named(&a, name),
            None => false,
        };
        let b = if has {
            let mut slot: Option<Register> = None;
            std::mem::swap(&mut slot, &mut cur);
            let y = match slot {
                Some(y) => y,
                None => {
                    proof {
                        assert(false);
                    }
                    return (out, None);
                },
            };
            let b = replace_in_element(a, name, y);
            proof {
                lemma_first_exists(q, name@);
                let kq = first_named_at(q, name@);
                let k = p.len() + kq;
                let pq = p + q;
                assert forall|j: int| 0 <= j < k implies (#[trigger] pq[j]).info_spec().name@ != name@ by {
                    if j < p.len() {
                        assert(pq[j] == p[j]);
                        if p[j].info_spec().name@ == name@ {
                            assert(register_named(p, name@));
                        }
                    } else {
                        assert(pq[j] == q[j - p.len()]);
                    }
                }
                assert(pq[k] == q[kq]);
                lemma_first_named(pq, name@, k);
                assert(all == pq + seq_registers(s.skip(i + 1)));
                assert forall|j: int| 0 <= j < k implies (#[trigger] all[j]).info_spec().name@ != name@ by {
                    assert(all[j] == pq[j]);
                }
                assert(all[k] == pq[k]);
                lemma_first_named(all, name@, k);
            }
            b
        } else {
            a
        };
        out.push(b);
        proof {
            crate::registercluster::lemma_seq_registers_append(before, seq![b]);
            assert(before + seq![b] =~= out@);
            let one = seq![b];
            assert(one.subrange(1, 1) =~= Seq::<RegisterCluster>::empty());
            assert(seq_registers(Seq::<RegisterCluster>::empty()) =~= Seq::<Register>::empty());
            assert(seq_registers(one) =~= rc_registers(b) + seq_registers(one.subrange(1, 1)));
            assert(seq_registers(out@) == seq_registers(before) + rc_registers(b));
            let pq = p + q;
            let t = seq_registers(before) + rc_registers(b);
            if has {
                let kq = first_named_at(q, name@);
                let k = p.len() + kq;
                assert(before == s.take(i as int));
                assert forall|j: int| 0 <= j < pq.len() && j != k implies t[j] == pq[j] by {
                    if j < p.len() {
                        assert(t[j] == p[j]);
                        assert(pq[j] == p[j]);
                    } else {
                        assert(t[j] == rc_registers(b)[j - p.len()]);
                        assert(pq[j] == q[j - p.len()]);
                    }
                }
                assert(t[k] == rc_registers(b)[kq]);
                assert(register_named(pq, name@)) by {
                    assert(pq[k].info_spec().name@ == name@);
                }
            } else if cur is Some {
                assert(out@ =~= s.take(i + 1));
                assert forall|j: int| 0 <= j < pq.len() implies (#[trigger] pq[j]).info_spec().name@ != name@ by {
                    if j < p.len() {
                        assert(pq[j] == p[j]);
                        if p[j].info_spec().name@ == name@ {
                            assert(register_named(p, name@));
                        }
                    } else {
                        assert(pq[j] == q[j - p.len()]);
                        if q[j - p.len()].info_spec().name@ == name@ {
                            assert(register_named(q, name@));
                        }
                    }
                }
            } else {
                let k = first_named_at(p, name@);
                lemma_first_exists(p, name@);
                let t0 = seq_registers(before);
                assert forall|j: int| 0 <= j < k implies (#[trigger] pq[j]).info_spec().name@ != name@ by {
                    assert(pq[j] == p[j]);
                }
                assert(pq[k] == p[k]);
                lemma_first_named(pq, name@, k);
                assert forall|j: int| 0 <= j < pq.len() && j != k implies t[j] == pq[j] by {
                    if j < p.len() {
                        assert(t[j] == t0[j]);
                        assert(pq[j] == p[j]);
                    } else {
                        assert(t[j] == q[j - p.len()]);
                        assert(pq[j] == q[j - p.len()]);
                    }
                }
                assert(t[k] == t0[k]);
                assert(register_named(pq, name@)) by {
                    assert(pq[k].info_spec().name@ == name@);
                }
            }
        }
        assert(list@ =~= s.skip(i + 1));
        i += 1;
    }
    assert(s.take(n as int) =~= s);
    (out, cur)
}

/// A copy of register `x`: of the same kind, its information copied (see
/// [`RegisterInfo::copied_as`]).
fn copy_of(x: &Register) -> (r: Register)
    ensures
        (r is Single) == (x is Single),
        x.info_spec().copied_as(r.info_spec()),
{
    match x {
        Register::Single(i) => Register::Single(i.clone()),
        Register::Array(i, d) => Register::Array(i.clone(), d.clone()),
    }
}

/// `y` is register `src` derived under the name `rname` by the mapping
/// `h`: a copy of it, modified by the register builder of the mapping with
/// `rname` as name and display name.
pub open spec fn derived_copy(src: Register, y: Register, h: Seq<(YamlValue, YamlValue)>, rname: Seq<char>) -> bool {
    &&& (y is Single) == (src is Single)
    &&& exists|c: RegisterInfo, b: RegisterInfoBuilder, n: String, m: String|
        {
            &&& src.info_spec().copied_as(c)
            &&& register_builder_of(h, b)
            &&& n@ == rname && m@ == rname
            &&& y.info_spec() == c.modified(RegisterInfoBuilder { name: Some(n), display_name: Some(m), ..b })
        }
}

/// A copy can be derived from the registers `s` by the mapping `h`: it
/// names under `_from` one of them, its listed fields can be built, and
/// the properties of the first register of that name, modified by its own,
/// pass validation.
pub open spec fn register_copy_ok(s: Seq<Register>, h: Seq<(YamlValue, YamlValue)>) -> bool {
    &&& key_text(h, "_from"@) matches Some(src) && register_named(s, src)
    &&& register_fields_ok(h)
    &&& properties_outcome(
        s[first_named_at(s, key_text(h, "_from"@)->0)].info_spec().properties.modified(register_properties_of(h)),
        VAL_LVL,
    ) is Ok
}

/// Add rname given by deriving from rsource to ptag: the first register,
/// at any depth, named as the mapping's `_from` says is copied and modified
/// by the mapping (see [`derived_copy`]); the copy replaces the first
/// register named `rname`, keeping its address offset, or else goes after
/// the other elements. Fails, leaving the peripheral as it was, exactly
/// when the mapping has no `_from`, no register has that name, a listed
/// field cannot be built, or the copy is not valid (see
/// [`register_copy_ok`]).
pub fn copy_register(p: &mut PeripheralInfo, rname: &str, rderive: &Vec<(YamlValue, YamlValue)>) -> (r: Result<(), PatchError>)
    ensures
        r is Ok <==> register_copy_ok(seq_registers(elements_of(old(p).registers)), rderive@),
        r is Err ==> *final(p) == *old(p),
        r is Ok ==> ({
            let s = seq_registers(elements_of(old(p).registers));
            let src = s[first_named_at(s, key_text(rderive@, "_from"@)->0)];
            &&& final(p).registers is Some
            &&& *final(p) == (PeripheralInfo { registers: final(p).registers, ..*old(p) })
            &&& exists|y: Register|
                {
                    &&& derived_copy(src, y, rderive@, rname@)
                    &&& if register_named(s, rname@) {
                        first_replaced(s, seq_registers(elements_of(final(p).registers)), rname@, y)
                    } else {
                        elements_of(final(p).registers) == elements_of(old(p).registers).push(
                            RegisterCluster::Register(Box::new(y)),
                        )
                    }
                }
        }),
{
    proof {
        reveal_strlit("_from");
    }
    let srcname = match get_str(rderive, "_from") {
        Some(t) => t,
        None => return Err(PatchError::Value(owned(rname))),
    };
    let all = p.all_registers();
    let ghost s = seq_registers(elements_of(p.registers));
    let k = match first_named_in(&all, srcname) {
        Some(k) => k,
        None => {
            assert forall|j: int| 0 <= j < s.len() implies (#[trigger] s[j]).info_spec().name@ != srcname@ by {
                assert(*all@[j] == s[j]);
            }
            return Err(PatchError::NotFound(qualified(p.name.as_str(), srcname)));
        },
    };
    assert forall|j: int| 0 <= j < k implies (#[trigger] s[j]).info_spec().name@ != srcname@ by {
        assert(*all@[j] == s[j]);
    }
    assert(*all@[k as int] == s[k as int]);
    proof {
        assert(is_first_named(s, srcname@, k as int));
        lemma_first_named(s, srcname@, k as int);
    }
    let mut source = copy_of(all[k]);
    let ghost c = source.info_spec();
    let b = match make_register(rderive) {
        Ok(b) => b,
        Err(e) => return Err(e),
    };
    let ghost b0 = b;
    let n = owned(rname);
    let m = owned(rname);
    let ghost nn = n;
    let ghost mm = m;
    let fixes = b.name(n).display_name(Some(m));
    let ghost fx = fixes;
    proof {
        assert(k as int == first_named_at(s, srcname@));
    }
    let info = source.info_mut();
    match info.modify_from(fixes, VAL_LVL) {
        Ok(()) => {},
        Err(e) => return Err(PatchError::Invalid(e)),
    }
    assert(register_copy_ok(s, rderive@));
    assert(source.info_spec() == c.modified(fx));
    assert(derived_copy(s[k as int], source, rderive@, rname@)) by {
        assert(fx == RegisterInfoBuilder { name: Some(nn), display_name: Some(mm), ..b0 });
    }
    let ghost y = source;
    let regs = match p.registers.take() {
        Some(v) => v,
        None => {
            assert(s.len() == 0);
            return Err(PatchError::NotFound(owned(srcname)));
        },
    };
    let (t, rest) = replace_first(regs, rname, source);
    let t = match rest {
        Some(z) => {
            let mut t = t;
            t.push(RegisterCluster::Register(Box::new(z)));
            t
        },
        None => t,
    };
    p.registers = Some(t);
    Ok(())
}

/// The position of the first of `all` named `name`, if any.
fn first_named_in(all: &Vec<&Register>, name: &str) -> (r: Option<usize>)
    ensures
        match r {
            Some(k) => k < all@.len() && (*all@[k as int]).info_spec().name@ == name@ && forall|j: int|
                0 <= j < k ==> (*#[trigger] all@[j]).info_spec().name@ != name@,
            None => forall|j: int| 0 <= j < all@.len() ==> (*#[trigger] all@[j]).info_spec().name@ != name@,
        },
{
    let mut k: usize = 0;
    while k < all.len()
        invariant
            k <= all@.len(),
            forall|j: int| 0 <= j < k ==> (*#[trigger] all@[j]).info_spec().name@ != name@,
        decreases all@.len() - k,
    {
        if str_eq(all[k].info().name.as_str(), name) {
            return Some(k);
        }
        k += 1;
    }
    None
}

} // verus!
