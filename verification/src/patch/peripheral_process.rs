//! Applying the edits of a patch file to a peripheral: the patch is read
//! into a list of edits, which are then applied in turn.
use vstd::prelude::*;

use crate::cluster::ClusterInfoBuilder;
use crate::field::opt_chars;
use crate::patch::cluster_collect::{
    child_may_fail, children_ok, cluster_collectable, cluster_description, cluster_place, cluster_specs,
    collect_in_cluster, groups_agree, groups_of, lowest_first, remaining_after,
};
use crate::patch::collect::{array_description, array_name_ok, name_indices_ok};
use crate::patch::error::PatchError;
use crate::patch::make::{key_number, key_text, register_fields_ok};
use crate::patch::names::{left_token, right_token};
use crate::patch::peripheral::{
    add_interrupt, add_register, copy_register, delete_interrupt, delete_register, derived_copy, described_register,
    fails_exactly, first_named_at, first_replaced, interrupt_modified, interrupt_named, interrupts_testable,
    kept_elements, kept_interrupts, modify_cluster, modify_interrupt, modify_register, process_register,
    register_addable, register_copy_ok, register_named, registers_testable, strip_end, strip_start, tree_fails, tree_may_fail,
    tree_mapped, tree_matched, RegisterEdit,
};
use crate::patch::process::{edits_applied, field_edits};
use crate::patch::register_array::{
    address_increment, collect_in_array, collectable, first_reg_single_at, other_elements, reg_names, reg_single_matches,
    sort_by_address,
};
use crate::patch::yaml::{get_key, get_key_spec, YamlValue};
use crate::peripheral::elements_of;
use crate::registercluster::seq_registers;
use crate::text::{owned, str_eq, utf8};
use crate::{Cluster, ClusterInfo, PeripheralInfo, Register, RegisterCluster, RegisterInfo};

verus! {

/// One edit that a patch file asks of a peripheral.
pub enum PeripheralEdit<'a> {
    /// Delete the interrupts that a pattern matches
    DeleteInterrupt(&'a String),
    /// Modify the interrupts that a pattern matches
    ModifyInterrupt(&'a String, &'a Vec<(YamlValue, YamlValue)>),
    /// Add an interrupt
    AddInterrupt(&'a String, &'a Vec<(YamlValue, YamlValue)>),
    /// Delete the registers that a pattern matches
    DeleteRegister(&'a String),
    /// Modify the registers that a pattern matches
    ModifyRegister(&'a String, &'a Vec<(YamlValue, YamlValue)>),
    /// Modify the clusters that a pattern matches
    ModifyCluster(&'a String, &'a Vec<(YamlValue, YamlValue)>),
    /// Strip a prefix from the register names
    StripStart(&'a String),
    /// Strip a suffix from the register names
    StripEnd(&'a String),
    /// Add a register
    AddRegister(&'a String, &'a Vec<(YamlValue, YamlValue)>),
    /// Add a register derived from another
    CopyRegister(&'a String, &'a Vec<(YamlValue, YamlValue)>),
    /// Process the registers that a pattern matches
    ProcessRegister(&'a String, &'a Vec<(YamlValue, YamlValue)>),
    /// Collect registers into an array
    CollectArray(&'a String, &'a Vec<(YamlValue, YamlValue)>),
    /// Collect registers into a cluster
    CollectCluster(&'a String, &'a Vec<(YamlValue, YamlValue)>),
}

/// The edits that take a single pattern.
#[derive(Clone, Copy)]
pub enum TextEdit {
    /// Deleting interrupts
    DeleteInterrupt,
    /// Deleting registers
    DeleteRegister,
    /// Stripping a prefix
    StripStart,
    /// Stripping a suffix
    StripEnd,
}

/// The edits that take a name and a mapping.
#[derive(Clone, Copy)]
pub enum PairEdit {
    /// Modifying interrupts
    ModifyInterrupt,
    /// Adding an interrupt
    AddInterrupt,
    /// Modifying registers
    ModifyRegister,
    /// Modifying clusters
    ModifyCluster,
    /// Adding a register
    AddRegister,
    /// Deriving a register
    CopyRegister,
    /// Processing registers
    ProcessRegister,
    /// Collecting an array
    CollectArray,
    /// Collecting a cluster
    CollectCluster,
}

/// The parts of a peripheral mapping whose entries map names to mappings.
#[derive(Clone, Copy)]
pub enum Section {
    /// `_modify` of a derived peripheral: only `_interrupts` counts
    DerivedModify,
    /// `_add` of a derived peripheral: only `_interrupts` counts
    DerivedAdd,
    /// `_modify`
    Modify,
    /// `_add`
    Add,
    /// `_derive`
    Derive,
    /// The entries that name registers
    Registers,
    /// `_array`
    Array,
    /// `_cluster`
    Cluster,
}

/// The edit of kind `k` with the pattern `t`.
pub open spec fn text_edit<'a>(k: TextEdit, t: &'a String) -> PeripheralEdit<'a> {
    match k {
        TextEdit::DeleteInterrupt => PeripheralEdit::DeleteInterrupt(t),
        TextEdit::DeleteRegister => PeripheralEdit::DeleteRegister(t),
        TextEdit::StripStart => PeripheralEdit::StripStart(t),
        TextEdit::StripEnd => PeripheralEdit::StripEnd(t),
    }
}

/// The edit of kind `k` with the name `t` and the mapping `h`.
pub open spec fn pair_edit<'a>(k: PairEdit, t: &'a String, h: &'a Vec<(YamlValue, YamlValue)>) -> PeripheralEdit<'a> {
    match k {
        PairEdit::ModifyInterrupt => PeripheralEdit::ModifyInterrupt(t, h),
        PairEdit::AddInterrupt => PeripheralEdit::AddInterrupt(t, h),
        PairEdit::ModifyRegister => PeripheralEdit::ModifyRegister(t, h),
        PairEdit::ModifyCluster => PeripheralEdit::ModifyCluster(t, h),
        PairEdit::AddRegister => PeripheralEdit::AddRegister(t, h),
        PairEdit::CopyRegister => PeripheralEdit::CopyRegister(t, h),
        PairEdit::ProcessRegister => PeripheralEdit::ProcessRegister(t, h),
        PairEdit::CollectArray => PeripheralEdit::CollectArray(t, h),
        PairEdit::CollectCluster => PeripheralEdit::CollectCluster(t, h),
    }
}

/// Two lists of edits one after the other, where both could be read.
pub open spec fn chained<'a>(a: Option<Seq<PeripheralEdit<'a>>>, b: Option<Seq<PeripheralEdit<'a>>>) -> Option<
    Seq<PeripheralEdit<'a>>,
> {
    match (a, b) {
        (Some(x), Some(y)) => Some(x + y),
        _ => None,
    }
}

/// The edits of kind `k`, one per item of a list: each must be a text
/// when `strict`; otherwise other items are left out.
pub open spec fn list_edits<'a>(items: Seq<YamlValue>, k: TextEdit, strict: bool) -> Option<Seq<PeripheralEdit<'a>>>
    decreases items.len(),
{
    if items.len() == 0 {
        Some(Seq::empty())
    } else {
        chained(
            list_edits(items.drop_last(), k, strict),
            match items.last() {
                YamlValue::String(t) => Some(seq![text_edit(k, &t)]),
                _ => if strict {
                    None
                } else {
                    Some(Seq::empty())
                },
            },
        )
    }
}

/// The edits of kind `k` that a value asks: one for a text, one per text of
/// a list, none else.
#[verifier::opaque]
pub open spec fn texts_of<'a>(v: Option<YamlValue>, k: TextEdit) -> Seq<PeripheralEdit<'a>> {
    match v {
        Some(YamlValue::String(t)) => seq![text_edit(k, &t)],
        Some(YamlValue::Array(a)) => list_edits(a@, k, false)->0,
        _ => Seq::empty(),
    }
}

/// The edits of kind `k`, one per entry: each must map a text to a mapping.
pub open spec fn pair_list<'a>(entries: Seq<(YamlValue, YamlValue)>, k: PairEdit) -> Option<Seq<PeripheralEdit<'a>>>
    decreases entries.len(),
{
    if entries.len() == 0 {
        Some(Seq::empty())
    } else {
        chained(
            pair_list(entries.drop_last(), k),
            match entries.last() {
                (YamlValue::String(t), YamlValue::Hash(h)) => Some(seq![pair_edit(k, &t, &h)]),
                _ => None,
            },
        )
    }
}

/// The edits that one entry of a section asks.
#[verifier::opaque]
pub open spec fn section_entry<'a>(e: (YamlValue, YamlValue), sec: Section) -> Option<Seq<PeripheralEdit<'a>>> {
    match sec {
        Section::DerivedModify | Section::DerivedAdd => match e.0 {
            YamlValue::String(t) => if t@ == "_interrupts"@ {
                match e.1 {
                    YamlValue::Hash(h) => pair_list(
                        h@,
                        if sec is DerivedModify {
                            PairEdit::ModifyInterrupt
                        } else {
                            PairEdit::AddInterrupt
                        },
                    ),
                    _ => None,
                }
            } else {
                Some(Seq::empty())
            },
            _ => Some(Seq::empty()),
        },
        Section::Modify | Section::Add | Section::Derive => match (e.0, e.1) {
            (YamlValue::String(t), YamlValue::Hash(h)) => if t@ == "_registers"@ {
                pair_list(
                    h@,
                    match sec {
                        Section::Modify => PairEdit::ModifyRegister,
                        Section::Add => PairEdit::AddRegister,
                        _ => PairEdit::CopyRegister,
                    },
                )
            } else if t@ == "_interrupts"@ {
                match sec {
                    Section::Modify => pair_list(h@, PairEdit::ModifyInterrupt),
                    Section::Add => pair_list(h@, PairEdit::AddInterrupt),
                    _ => None,
                }
            } else if t@ == "_cluster"@ && sec is Modify {
                pair_list(h@, PairEdit::ModifyCluster)
            } else {
                Some(
                    seq![
                        pair_edit(
                            match sec {
                                Section::Modify => PairEdit::ModifyRegister,
                                Section::Add => PairEdit::AddRegister,
                                _ => PairEdit::CopyRegister,
                            },
                            &t,
                            &h,
                        ),
                    ],
                )
            },
            _ => None,
        },
        Section::Registers => match e.0 {
            YamlValue::String(t) => if t@.len() > 0 && t@[0] == '_' {
                Some(Seq::empty())
            } else {
                match e.1 {
                    YamlValue::Hash(h) => Some(seq![PeripheralEdit::ProcessRegister(&t, &h)]),
                    _ => None,
                }
            },
            _ => None,
        },
        Section::Array => match (e.0, e.1) {
            (YamlValue::String(t), YamlValue::Hash(h)) => Some(seq![PeripheralEdit::CollectArray(&t, &h)]),
            _ => None,
        },
        Section::Cluster => match (e.0, e.1) {
            (YamlValue::String(t), YamlValue::Hash(h)) => Some(seq![PeripheralEdit::CollectCluster(&t, &h)]),
            _ => None,
        },
    }
}

/// The edits that the entries of a section ask, in order.
pub open spec fn section_edits<'a>(entries: Seq<(YamlValue, YamlValue)>, sec: Section) -> Option<Seq<PeripheralEdit<'a>>>
    decreases entries.len(),
{
    if entries.len() == 0 {
        Some(Seq::empty())
    } else {
        chained(section_edits(entries.drop_last(), sec), section_entry(entries.last(), sec))
    }
}

/// The entries of a value that is a mapping, none else.
pub open spec fn entries_of(v: Option<YamlValue>) -> Seq<(YamlValue, YamlValue)> {
    match v {
        Some(YamlValue::Hash(m)) => m@,
        _ => Seq::empty(),
    }
}

/// The deletions that a value asks: a register pattern, a list of them
/// (which must all be texts), or a mapping with `_registers` and
/// `_interrupts`.
#[verifier::opaque]
pub open spec fn delete_edits<'a>(v: Option<YamlValue>) -> Option<Seq<PeripheralEdit<'a>>> {
    match v {
        Some(YamlValue::String(t)) => Some(seq![PeripheralEdit::DeleteRegister(&t)]),
        Some(YamlValue::Array(a)) => list_edits(a@, TextEdit::DeleteRegister, true),
        Some(YamlValue::Hash(h)) => Some(
            texts_of(get_key_spec(h@, "_registers"@), TextEdit::DeleteRegister) + texts_of(
                get_key_spec(h@, "_interrupts"@),
                TextEdit::DeleteInterrupt,
            ),
        ),
        _ => Some(Seq::empty()),
    }
}

/// The edits that the mapping `h` of a peripheral asks, in the order in
/// which they are applied. A derived peripheral only deletes, modifies and
/// adds interrupts. Otherwise: deletions, modifications, stripped prefixes
/// and suffixes, additions, derivations, the registers themselves, arrays,
/// clusters. `None` where a part has not the expected kind.
pub open spec fn peripheral_edits<'a>(h: Seq<(YamlValue, YamlValue)>, derived: bool) -> Option<Seq<PeripheralEdit<'a>>> {
    if derived {
        chained(
            Some(
                match get_key_spec(h, "_delete"@) {
                    Some(YamlValue::Hash(d)) => texts_of(get_key_spec(d@, "_interrupts"@), TextEdit::DeleteInterrupt),
                    _ => Seq::empty(),
                },
            ),
            chained(
                section_edits(entries_of(get_key_spec(h, "_modify"@)), Section::DerivedModify),
                section_edits(entries_of(get_key_spec(h, "_add"@)), Section::DerivedAdd),
            ),
        )
    } else {
        chained(
            delete_edits(get_key_spec(h, "_delete"@)),
            chained(
                section_edits(entries_of(get_key_spec(h, "_modify"@)), Section::Modify),
                chained(
                    Some(
                        texts_of(get_key_spec(h, "_strip"@), TextEdit::StripStart) + texts_of(
                            get_key_spec(h, "_strip_end"@),
                            TextEdit::StripEnd,
                        ),
                    ),
                    chained(
                        section_edits(entries_of(get_key_spec(h, "_add"@)), Section::Add),
                        chained(
                            section_edits(entries_of(get_key_spec(h, "_derive"@)), Section::Derive),
                            chained(
                                section_edits(h, Section::Registers),
                                chained(
                                    section_edits(entries_of(get_key_spec(h, "_array"@)), Section::Array),
                                    section_edits(entries_of(get_key_spec(h, "_cluster"@)), Section::Cluster),
                                ),
                            ),
                        ),
                    ),
                ),
            ),
        )
    }
}

/// A value held by reference, as a value.
pub open spec fn deref_opt(v: Option<&YamlValue>) -> Option<YamlValue> {
    match v {
        Some(y) => Some(*y),
        None => None,
    }
}

proof fn lemma_list_fail(s: Seq<YamlValue>, k: TextEdit, strict: bool, j: int)
    requires
        0 <= j <= s.len(),
        list_edits(s.take(j), k, strict) is None,
    ensures
        list_edits(s, k, strict) is None,
    decreases s.len() - j,
{
    if j < s.len() {
        assert(s.take(j + 1).drop_last() =~= s.take(j));
        lemma_list_fail(s, k, strict, j + 1);
    } else {
        assert(s.take(j) =~= s);
    }
}

proof fn lemma_pairs_fail(s: Seq<(YamlValue, YamlValue)>, k: PairEdit, j: int)
    requires
        0 <= j <= s.len(),
        pair_list(s.take(j), k) is None,
    ensures
        pair_list(s, k) is None,
    decreases s.len() - j,
{
    if j < s.len() {
        assert(s.take(j + 1).drop_last() =~= s.take(j));
        lemma_pairs_fail(s, k, j + 1);
    } else {
        assert(s.take(j) =~= s);
    }
}

proof fn lemma_section_fail(s: Seq<(YamlValue, YamlValue)>, sec: Section, j: int)
    requires
        0 <= j <= s.len(),
        section_edits(s.take(j), sec) is None,
    ensures
        section_edits(s, sec) is None,
    decreases s.len() - j,
{
    if j < s.len() {
        assert(s.take(j + 1).drop_last() =~= s.take(j));
        lemma_section_fail(s, sec, j + 1);
    } else {
        assert(s.take(j) =~= s);
    }
}

/// The edit of kind `k` with the pattern `t`.
fn make_text_edit<'a>(k: TextEdit, t: &'a String) -> (r: PeripheralEdit<'a>)
    ensures
        r == text_edit(k, t),
{
    match k {
        TextEdit::DeleteInterrupt => PeripheralEdit::DeleteInterrupt(t),
        TextEdit::DeleteRegister => PeripheralEdit::DeleteRegister(t),
        TextEdit::StripStart => PeripheralEdit::StripStart(t),
        TextEdit::StripEnd => PeripheralEdit::StripEnd(t),
    }
}

/// The edit of kind `k` with the name `t` and the mapping `h`.
fn make_pair_edit<'a>(k: PairEdit, t: &'a String, h: &'a Vec<(YamlValue, YamlValue)>) -> (r: PeripheralEdit<'a>)
    ensures
        r == pair_edit(k, t, h),
{
    match k {
        PairEdit::ModifyInterrupt => PeripheralEdit::ModifyInterrupt(t, h),
        PairEdit::AddInterrupt => PeripheralEdit::AddInterrupt(t, h),
        PairEdit::ModifyRegister => PeripheralEdit::ModifyRegister(t, h),
        PairEdit::ModifyCluster => PeripheralEdit::ModifyCluster(t, h),
        PairEdit::AddRegister => PeripheralEdit::AddRegister(t, h),
        PairEdit::CopyRegister => PeripheralEdit::CopyRegister(t, h),
        PairEdit::ProcessRegister => PeripheralEdit::ProcessRegister(t, h),
        PairEdit::CollectArray => PeripheralEdit::CollectArray(t, h),
        PairEdit::CollectCluster => PeripheralEdit::CollectCluster(t, h),
    }
}

/// Appends the edits of kind `k` for the items of a list (see
/// [`list_edits`]); `false` where they cannot be read.
fn push_list<'a>(out: &mut Vec<PeripheralEdit<'a>>, items: &'a Vec<YamlValue>, k: TextEdit, strict: bool) -> (r: bool)
    ensures
        r == list_edits(items@, k, strict) is Some,
        r ==> final(out)@ == old(out)@ + list_edits(items@, k, strict)->0,
{
    let ghost start = out@;
    let mut i: usize = 0;
    while i < items.len()
        invariant
            i <= items@.len(),
            list_edits::<'a>(items@.take(i as int), k, strict) is Some,
            out@ == start + list_edits(items@.take(i as int), k, strict)->0,
        decreases items@.len() - i,
    {
        let ghost t = items@.take(i + 1);
        assert(t.drop_last() =~= items@.take(i as int));
        assert(t.last() == items@[i as int]);
        match &items[i] {
            YamlValue::String(x) => {
                out.push(make_text_edit(k, x));
            },
            _ => {
                if strict {
                    proof {
                        lemma_list_fail(items@, k, strict, i + 1);
                    }
                    return false;
                }
            },
        }
        i += 1;
        assert(out@ =~= start + list_edits::<'a>(items@.take(i as int), k, strict)->0);
    }
    assert(items@.take(items@.len() as int) =~= items@);
    true
}

/// Appends the edits of kind `k` that the value `v` asks (see
/// [`texts_of`]).
fn push_texts<'a>(out: &mut Vec<PeripheralEdit<'a>>, v: Option<&'a YamlValue>, k: TextEdit)
    ensures
        final(out)@ == old(out)@ + texts_of::<'a>(deref_opt(v), k),
{
    reveal(texts_of);
    match v {
        Some(YamlValue::String(t)) => {
            assert(deref_opt(v) == Some(YamlValue::String(*t)));
            out.push(make_text_edit(k, t));
            assert(out@ =~= old(out)@ + seq![text_edit(k, t)]);
            assert(texts_of::<'a>(deref_opt(v), k) =~= seq![text_edit(k, t)]);
        },
        Some(YamlValue::Array(a)) => {
            proof {
                lemma_lenient(a@, k);
            }
            push_list(out, a, k, false);
        },
        _ => {
            assert(out@ =~= old(out)@ + Seq::<PeripheralEdit>::empty());
        },
    }
}

/// A list whose other items are left out can always be read.
proof fn lemma_lenient(s: Seq<YamlValue>, k: TextEdit)
    ensures
        list_edits(s, k, false) is Some,
    decreases s.len(),
{
    if s.len() > 0 {
        lemma_lenient(s.drop_last(), k);
    }
}

/// Appends the edits of kind `k` for the entries (see [`pair_list`]);
/// `false` where they cannot be read.
fn push_pairs<'a>(out: &mut Vec<PeripheralEdit<'a>>, entries: &'a Vec<(YamlValue, YamlValue)>, k: PairEdit) -> (r: bool)
    ensures
        r == pair_list(entries@, k) is Some,
        r ==> final(out)@ == old(out)@ + pair_list(entries@, k)->0,
{
    let ghost start = out@;
    let mut i: usize = 0;
    while i < entries.len()
        invariant
            i <= entries@.len(),
            pair_list::<'a>(entries@.take(i as int), k) is Some,
            out@ == start + pair_list(entries@.take(i as int), k)->0,
        decreases entries@.len() - i,
    {
        let ghost t = entries@.take(i + 1);
        assert(t.drop_last() =~= entries@.take(i as int));
        assert(t.last() == entries@[i as int]);
        let (key, val) = &entries[i];
        match (key, val) {
            (YamlValue::String(x), YamlValue::Hash(h)) => {
                out.push(make_pair_edit(k, x, h));
            },
            _ => {
                proof {
                    lemma_pairs_fail(entries@, k, i + 1);
                }
                return false;
            },
        }
        i += 1;
        assert(out@ =~= start + pair_list::<'a>(entries@.take(i as int), k)->0);
    }
    assert(entries@.take(entries@.len() as int) =~= entries@);
    true
}

/// Appends the edits that one entry of a section asks (see
/// [`section_entry`]); `false` where they cannot be read.
fn push_entry<'a>(out: &mut Vec<PeripheralEdit<'a>>, e: &'a (YamlValue, YamlValue), sec: Section) -> (r: bool)
    ensures
        r == section_entry(*e, sec) is Some,
        r ==> final(out)@ == old(out)@ + section_entry(*e, sec)->0,
{
    reveal(section_entry);
    proof {
        reveal_strlit("_interrupts");
        reveal_strlit("_registers");
        reveal_strlit("_cluster");
    }
    let (key, val) = e;
    match sec {
        Section::DerivedModify | Section::DerivedAdd => match key {
            YamlValue::String(t) => {
                if str_eq(t.as_str(), "_interrupts") {
                    match val {
                        YamlValue::Hash(h) => push_pairs(
                            out,
                            h,
                            match sec {
                                Section::DerivedModify => PairEdit::ModifyInterrupt,
                                _ => PairEdit::AddInterrupt,
                            },
                        ),
                        _ => false,
                    }
                } else {
                    assert(out@ =~= old(out)@ + Seq::<PeripheralEdit>::empty());
                    true
                }
            },
            _ => {
                assert(out@ =~= old(out)@ + Seq::<PeripheralEdit>::empty());
                true
            },
        },
        Section::Modify | Section::Add | Section::Derive => match (key, val) {
            (YamlValue::String(t), YamlValue::Hash(h)) => {
                let kind = match sec {
                    Section::Modify => PairEdit::ModifyRegister,
                    Section::Add => PairEdit::AddRegister,
                    _ => PairEdit::CopyRegister,
                };
                if str_eq(t.as_str(), "_registers") {
                    push_pairs(out, h, kind)
                } else if str_eq(t.as_str(), "_interrupts") {
                    match sec {
                        Section::Modify => push_pairs(out, h, PairEdit::ModifyInterrupt),
                        Section::Add => push_pairs(out, h, PairEdit::AddInterrupt),
                        _ => false,
                    }
                } else if str_eq(t.as_str(), "_cluster") && match sec {
                    Section::Modify => true,
                    _ => false,
                } {
                    push_pairs(out, h, PairEdit::ModifyCluster)
                } else {
                    out.push(make_pair_edit(kind, t, h));
                    assert(out@ =~= old(out)@ + seq![pair_edit(kind, t, h)]);
                    true
                }
            },
            _ => false,
        },
        Section::Registers => match key {
            YamlValue::String(t) => {
                let c = crate::text::chars_of(t.as_str());
                if c.len() > 0 && c[0] == '_' {
                    assert(out@ =~= old(out)@ + Seq::<PeripheralEdit>::empty());
                    true
                } else {
                    match val {
                        YamlValue::Hash(h) => {
                            out.push(PeripheralEdit::ProcessRegister(t, h));
                            assert(out@ =~= old(out)@ + seq![PeripheralEdit::ProcessRegister(t, h)]);
                            true
                        },
                        _ => false,
                    }
                }
            },
            _ => false,
        },
        Section::Array | Section::Cluster => match (key, val) {
            (YamlValue::String(t), YamlValue::Hash(h)) => {
                let x = match sec {
                    Section::Array => PeripheralEdit::CollectArray(t, h),
                    _ => PeripheralEdit::CollectCluster(t, h),
                };
                out.push(x);
                assert(out@ =~= old(out)@ + seq![x]);
                true
            },
            _ => false,
        },
    }
}

/// Appends the edits that the entries of a section ask (see
/// [`section_edits`]); `false` where they cannot be read.
fn push_section<'a>(out: &mut Vec<PeripheralEdit<'a>>, entries: &'a Vec<(YamlValue, YamlValue)>, sec: Section) -> (r: bool)
    ensures
        r == section_edits(entries@, sec) is Some,
        r ==> final(out)@ == old(out)@ + section_edits(entries@, sec)->0,
{
    let ghost start = out@;
    let mut i: usize = 0;
    while i < entries.len()
        invariant
            i <= entries@.len(),
            section_edits::<'a>(entries@.take(i as int), sec) is Some,
            out@ == start + section_edits(entries@.take(i as int), sec)->0,
        decreases entries@.len() - i,
    {
        let ghost t = entries@.take(i + 1);
        assert(t.drop_last() =~= entries@.take(i as int));
        assert(t.last() == entries@[i as int]);
        if !push_entry(out, &entries[i], sec) {
            proof {
                lemma_section_fail(entries@, sec, i + 1);
            }
            return false;
        }
        i += 1;
        assert(out@ =~= start + section_edits::<'a>(entries@.take(i as int), sec)->0);
    }
    assert(entries@.take(entries@.len() as int) =~= entries@);
    true
}

/// Appends the edits of the section under `v` (see [`entries_of`]);
/// `false` where they cannot be read.
fn push_section_of<'a>(out: &mut Vec<PeripheralEdit<'a>>, v: Option<&'a YamlValue>, sec: Section) -> (r: bool)
    ensures
        r == section_edits(entries_of(deref_opt(v)), sec) is Some,
        r ==> final(out)@ == old(out)@ + section_edits(entries_of(deref_opt(v)), sec)->0,
{
    match v {
        Some(YamlValue::Hash(m)) => push_section(out, m, sec),
        _ => {
            assert(entries_of(deref_opt(v)) =~= Seq::<(YamlValue, YamlValue)>::empty());
            assert(out@ =~= old(out)@ + Seq::<PeripheralEdit>::empty());
            true
        },
    }
}

/// Appends the deletions that the value `v` asks (see [`delete_edits`]);
/// `false` where they cannot be read.
fn push_deletes<'a>(out: &mut Vec<PeripheralEdit<'a>>, v: Option<&'a YamlValue>) -> (r: bool)
    ensures
        r == delete_edits(deref_opt(v)) is Some,
        r ==> final(out)@ == old(out)@ + delete_edits(deref_opt(v))->0,
{
    reveal(delete_edits);
    proof {
        reveal_strlit("_registers");
        reveal_strlit("_interrupts");
    }
    match v {
        Some(YamlValue::String(t)) => {
            out.push(PeripheralEdit::DeleteRegister(t));
            assert(out@ =~= old(out)@ + seq![PeripheralEdit::DeleteRegister(t)]);
            true
        },
        Some(YamlValue::Array(a)) => push_list(out, a, TextEdit::DeleteRegister, true),
        Some(YamlValue::Hash(h)) => {
            let ghost s0 = out@;
            push_texts(out, get_key(h, "_registers"), TextEdit::DeleteRegister);
            let ghost s1 = out@;
            push_texts(out, get_key(h, "_interrupts"), TextEdit::DeleteInterrupt);
            assert(out@ =~= s0 + (s1.skip(s0.len() as int) + out@.skip(s1.len() as int)));
            true
        },
        _ => {
            assert(out@ =~= old(out)@ + Seq::<PeripheralEdit>::empty());
            true
        },
    }
}

/// The edits of the later parts of a peripheral mapping: additions,
/// derivations, the registers themselves, arrays and clusters.
pub open spec fn later_edits<'a>(h: Seq<(YamlValue, YamlValue)>) -> Option<Seq<PeripheralEdit<'a>>> {
    chained(
        section_edits(entries_of(get_key_spec(h, "_add"@)), Section::Add),
        chained(
            section_edits(entries_of(get_key_spec(h, "_derive"@)), Section::Derive),
            chained(
                section_edits(h, Section::Registers),
                chained(
                    section_edits(entries_of(get_key_spec(h, "_array"@)), Section::Array),
                    section_edits(entries_of(get_key_spec(h, "_cluster"@)), Section::Cluster),
                ),
            ),
        ),
    )
}

proof fn lemma_later(h: Seq<(YamlValue, YamlValue)>)
    ensures
        peripheral_edits(h, false) == chained(
            delete_edits(get_key_spec(h, "_delete"@)),
            chained(
                section_edits(entries_of(get_key_spec(h, "_modify"@)), Section::Modify),
                chained(
                    Some(
                        texts_of(get_key_spec(h, "_strip"@), TextEdit::StripStart) + texts_of(
                            get_key_spec(h, "_strip_end"@),
                            TextEdit::StripEnd,
                        ),
                    ),
                    later_edits(h),
                ),
            ),
        ),
{
}

/// Appends the edits of the later parts of a peripheral mapping (see
/// [`later_edits`]); `false` where they cannot be read.
#[verifier::rlimit(40)]
fn push_later<'a>(out: &mut Vec<PeripheralEdit<'a>>, h: &'a Vec<(YamlValue, YamlValue)>) -> (r: bool)
    ensures
        r == later_edits(h@) is Some,
        r ==> final(out)@ == old(out)@ + later_edits(h@)->0,
{
    proof {
        reveal_strlit("_add");
        reveal_strlit("_derive");
        reveal_strlit("_array");
        reveal_strlit("_cluster");
    }
    let ghost p0 = out@;
    if !push_section_of(out, get_key(h, "_add"), Section::Add) {
        return false;
    }
    let ghost p1 = out@;
    if !push_section_of(out, get_key(h, "_derive"), Section::Derive) {
        return false;
    }
    let ghost p2 = out@;
    if !push_section(out, h, Section::Registers) {
        return false;
    }
    let ghost p3 = out@;
    if !push_section_of(out, get_key(h, "_array"), Section::Array) {
        return false;
    }
    let ghost p4 = out@;
    if !push_section_of(out, get_key(h, "_cluster"), Section::Cluster) {
        return false;
    }
    proof {
        let a = p1.skip(p0.len() as int);
        let b = p2.skip(p1.len() as int);
        let c = p3.skip(p2.len() as int);
        let d = p4.skip(p3.len() as int);
        let e = out@.skip(p4.len() as int);
        assert(p1 =~= p0 + a);
        assert(p2 =~= p1 + b);
        assert(p3 =~= p2 + c);
        assert(p4 =~= p3 + d);
        assert(out@ =~= p4 + e);
        assert(out@ =~= p0 + (a + (b + (c + (d + e)))));
    }
    true
}

/// Reads the edits that the mapping `h` of a peripheral asks (see
/// [`peripheral_edits`]); `None` where a part has not the expected kind.
#[verifier::rlimit(40)]
pub fn peripheral_edits_of<'a>(h: &'a Vec<(YamlValue, YamlValue)>, derived: bool) -> (r: Option<Vec<PeripheralEdit<'a>>>)
    ensures
        match peripheral_edits(h@, derived) {
            Some(es) => r matches Some(v) && v@ == es,
            None => r is None,
        },
{
    proof {
        reveal_strlit("_delete");
        reveal_strlit("_modify");
        reveal_strlit("_add");
        reveal_strlit("_interrupts");
        reveal_strlit("_strip");
        reveal_strlit("_strip_end");
    }
    let mut out: Vec<PeripheralEdit<'a>> = Vec::new();
    if derived {
        match get_key(h, "_delete") {
            Some(YamlValue::Hash(d)) => {
                push_texts(&mut out, get_key(d, "_interrupts"), TextEdit::DeleteInterrupt);
            },
            _ => {},
        }
        let ghost p0 = out@;
        if !push_section_of(&mut out, get_key(h, "_modify"), Section::DerivedModify) {
            return None;
        }
        let ghost p1 = out@;
        if !push_section_of(&mut out, get_key(h, "_add"), Section::DerivedAdd) {
            return None;
        }
        proof {
            let a = p1.skip(p0.len() as int);
            let b = out@.skip(p1.len() as int);
            assert(p1 =~= p0 + a);
            assert(out@ =~= p1 + b);
            assert(out@ =~= p0 + (a + b));
        }
        return Some(out);
    }
    if !push_deletes(&mut out, get_key(h, "_delete")) {
        return None;
    }
    let ghost p0 = out@;
    if !push_section_of(&mut out, get_key(h, "_modify"), Section::Modify) {
        return None;
    }
    let ghost p1 = out@;
    push_texts(&mut out, get_key(h, "_strip"), TextEdit::StripStart);
    push_texts(&mut out, get_key(h, "_strip_end"), TextEdit::StripEnd);
    let ghost p2 = out@;
    if !push_later(&mut out, h) {
        proof {
            lemma_later(h@);
        }
        return None;
    }
    proof {
        lemma_later(h@);
        let a = p1.skip(p0.len() as int);
        let b = p2.skip(p1.len() as int);
        let c = out@.skip(p2.len() as int);
        assert(p1 =~= p0 + a);
        assert(p2 =~= p1 + b);
        assert(out@ =~= p2 + c);
        assert(out@ =~= p0 + (a + (b + c)));
    }
    Some(out)
}

// ---------------------------------------------------------------------------
// Applying the edits
// ---------------------------------------------------------------------------

/// What editing the registers of `a` by the register edit `e` gives: `b`,
/// when `ok` (see [`strip_start`], [`modify_register`], [`process_register`]).
pub open spec fn tree_result(a: PeripheralInfo, e: RegisterEdit, b: PeripheralInfo, ok: bool) -> bool {
    let s = elements_of(a.registers);
    &&& fails_exactly(e) ==> (!ok <==> tree_fails(s, e))
    &&& tree_fails(s, e) ==> !ok
    &&& (e is Process && !tree_matched(s, e)) ==> !ok
    &&& (e is Process && !ok) ==> tree_may_fail(s, e) || !tree_matched(s, e)
    &&& ok ==> {
        &&& (b.registers is Some) == (a.registers is Some)
        &&& tree_mapped(s, elements_of(b.registers), e)
        &&& b == (PeripheralInfo { registers: b.registers, ..a })
    }
}

/// What adding the register `rname` described by `radd` to `a` gives (see
/// [`add_register`]).
pub open spec fn added_result(a: PeripheralInfo, rname: Seq<char>, radd: Seq<(YamlValue, YamlValue)>, b: PeripheralInfo, ok: bool) -> bool {
    let s = elements_of(a.registers);
    &&& ok <==> !register_named(seq_registers(s), rname) && register_addable(radd)
    &&& !ok ==> b == a
    &&& ok ==> {
        let t = elements_of(b.registers);
        &&& b.registers is Some
        &&& t.len() == s.len() + 1
        &&& t.drop_last() == s
        &&& t.last() matches RegisterCluster::Register(x) && x == Register::Single(x.info_spec())
            && described_register(radd, rname, x.info_spec())
        &&& b == (PeripheralInfo { registers: b.registers, ..a })
    }
}

/// What deriving the register `rname` as `rderive` says gives (see
/// [`copy_register`]).
pub open spec fn copied_result(a: PeripheralInfo, rname: Seq<char>, rderive: Seq<(YamlValue, YamlValue)>, b: PeripheralInfo, ok: bool) -> bool {
    let s = seq_registers(elements_of(a.registers));
    &&& ok <==> register_copy_ok(s, rderive)
    &&& !ok ==> b == a
    &&& ok ==> {
        let src = s[first_named_at(s, key_text(rderive, "_from"@)->0)];
        &&& b.registers is Some
        &&& b == (PeripheralInfo { registers: b.registers, ..a })
        &&& exists|y: Register|
            {
                &&& derived_copy(src, y, rderive, rname)
                &&& if register_named(s, rname) {
                    first_replaced(s, seq_registers(elements_of(b.registers)), rname, y)
                } else {
                    elements_of(b.registers) == elements_of(a.registers).push(RegisterCluster::Register(Box::new(y)))
                }
            }
    }
}

/// What collecting an array gives (see [`collect_in_array`]).
pub open spec fn array_result(a: PeripheralInfo, rspec: Seq<char>, rmod: Seq<(YamlValue, YamlValue)>, b: PeripheralInfo, ok: bool) -> bool {
    &&& a.registers is None ==> ok && b == a
    &&& (a.registers is Some && ok) ==> collectable(elements_of(a.registers), rspec, rmod)
    &&& (a.registers is Some && !collectable(elements_of(a.registers), rspec, rmod)) ==> !ok
    &&& (a.registers is Some && collectable(elements_of(a.registers), rspec, rmod) && !ok) ==> {
        let bt = utf8(rspec);
        let sorted = sort_by_address(reg_single_matches(elements_of(a.registers), rspec));
        exists|g0: RegisterInfo|
            {
                &&& g0 == (RegisterInfo { name: g0.name, description: g0.description, ..sorted[0] })
                &&& array_name_ok(rmod, rspec, left_token(bt)->0, right_token(bt)->0, g0.name@)
                &&& match field_edits(rmod, true) {
                    None => true,
                    Some(es) => exists|q: RegisterInfo| edits_applied(g0, es, q, false),
                }
            }
    }
    &&& (a.registers is Some && ok) ==> {
        let s = elements_of(a.registers);
        let bt = utf8(rspec);
        let li = left_token(bt)->0;
        let ri = right_token(bt)->0;
        let sorted = sort_by_address(reg_single_matches(s, rspec));
        let zero = get_key_spec(rmod, "_start_from_zero"@) is Some;
        let other = other_elements(s, rspec);
        let q = first_reg_single_at(s, rspec);
        let t = elements_of(b.registers);
        &&& b.registers is Some
        &&& t.len() == other.len() + 1
        &&& t.take(q) == other.take(q)
        &&& t.skip(q + 1) == other.skip(q)
        &&& t[q] matches RegisterCluster::Register(x) && *x matches Register::Array(g, d) && {
            &&& d@.dim == sorted.len() as u32
            &&& d@.dim_increment == address_increment(sorted)
            &&& d@.dim_name is None
            &&& d@.dim_array_index is None
            &&& d@.dim_index matches Some(idx) && name_indices_ok(reg_names(sorted), zero, li, ri, idx) && exists|
                g0: RegisterInfo,
            |
                {
                    &&& g0 == (RegisterInfo { name: g0.name, description: g0.description, ..sorted[0] })
                    &&& array_name_ok(rmod, rspec, li, ri, g0.name@)
                    &&& array_description(opt_chars(sorted[0].description), idx, opt_chars(g0.description))
                    &&& edits_applied(g0, field_edits(rmod, true)->0, g, true)
                }
        }
        &&& b == (PeripheralInfo { registers: b.registers, ..a })
    }
}

/// What collecting a cluster gives (see [`collect_in_cluster`]).
pub open spec fn cluster_result(a: PeripheralInfo, cname: Seq<char>, cmod: Seq<(YamlValue, YamlValue)>, b: PeripheralInfo, ok: bool) -> bool {
    &&& a.registers is None ==> ok && b == a
    &&& (a.registers is Some && !cluster_collectable(elements_of(a.registers), cmod)) ==> !ok
    &&& (a.registers is Some && cluster_collectable(elements_of(a.registers), cmod) && !ok) ==> {
        let s = elements_of(a.registers);
        let sv = cluster_specs(cmod)->0;
        exists|k: int|
            0 <= k < sv.len() && child_may_fail(#[trigger] groups_of(s, sv, sv.len() as int)[k], cmod, sv[k])
    }
    &&& (a.registers is Some && ok) ==> {
        let s = elements_of(a.registers);
        let sv = cluster_specs(cmod)->0;
        let n = sv.len() as int;
        let gs = groups_of(s, sv, n);
        let rest = remaining_after(s, sv);
        let q = cluster_place(s, sv, n);
        let base = lowest_first(gs, n);
        let desc = cluster_description(cmod, cname, sv);
        let t = elements_of(b.registers);
        &&& cluster_collectable(s, cmod)
        &&& b.registers is Some
        &&& t.len() == rest.len() + 1
        &&& t.take(q) == rest.take(q)
        &&& t.skip(q + 1) == rest.skip(q)
        &&& t[q] matches RegisterCluster::Cluster(c) && *c matches Cluster::Array(ci, d) && {
            &&& ci == (ClusterInfo {
                name: ci.name,
                description: ci.description,
                address_offset: base,
                children: ci.children,
                ..ClusterInfoBuilder::empty().built()
            })
            &&& ci.name@ == cname
            &&& opt_chars(ci.description) == (if desc.len() == 0 {
                None
            } else {
                Some(desc)
            })
            &&& children_ok(ci.children@, gs, cmod, sv, base)
            &&& d@.dim == gs[0].len() as u32
            &&& d@.dim_increment == address_increment(gs[0])
            &&& d@.dim_name is None
            &&& d@.dim_array_index is None
            &&& d@.dim_index matches Some(idx) && groups_agree(gs, sv, idx)
        }
        &&& b == (PeripheralInfo { registers: b.registers, ..a })
    }
}

/// What applying edit `e` to peripheral `a` gives: `b`, where it succeeds
/// when `ok`; each edit as the function that makes it states.
pub open spec fn pedit_result(a: PeripheralInfo, e: PeripheralEdit, update_fields: bool, b: PeripheralInfo, ok: bool) -> bool {
    let ints = a.interrupt@;
    let ints_kept = b == (PeripheralInfo { interrupt: b.interrupt, ..a });
    match e {
        PeripheralEdit::DeleteInterrupt(x) => {
            &&& ok <==> interrupts_testable(ints, x@)
            &&& !ok ==> b == a
            &&& ok ==> b.interrupt@ == kept_interrupts(ints, x@) && ints_kept
        },
        PeripheralEdit::ModifyInterrupt(x, h) => {
            &&& ok <==> interrupts_testable(ints, x@)
            &&& !ok ==> b == a
            &&& ok ==> {
                &&& b.interrupt@.len() == ints.len()
                &&& forall|i: int|
                    0 <= i < ints.len() ==> interrupt_modified(ints[i], #[trigger] b.interrupt@[i], x@, h@)
                &&& ints_kept
            }
        },
        PeripheralEdit::AddInterrupt(x, h) => {
            &&& ok <==> !interrupt_named(ints, x@) && key_number(h@, "value"@) is Some
            &&& !ok ==> b == a
            &&& ok ==> {
                let t = b.interrupt@;
                &&& t.len() == ints.len() + 1
                &&& t.drop_last() == ints
                &&& t.last().name@ == x@
                &&& opt_chars(t.last().description) == key_text(h@, "description"@)
                &&& t.last().value == key_number(h@, "value"@)->0 as u32
                &&& ints_kept
            }
        },
        PeripheralEdit::DeleteRegister(x) => {
            &&& ok <==> registers_testable(elements_of(a.registers), x@)
            &&& !ok ==> b == a
            &&& ok ==> {
                &&& (b.registers is Some) == (a.registers is Some)
                &&& elements_of(b.registers) == kept_elements(elements_of(a.registers), x@)
                &&& b == (PeripheralInfo { registers: b.registers, ..a })
            }
        },
        PeripheralEdit::ModifyRegister(x, h) => exists|y: &str|
            y@ == x@ && tree_result(a, RegisterEdit::Modify(y, h), b, ok),
        PeripheralEdit::ModifyCluster(..) => !ok && b == a,
        PeripheralEdit::StripStart(x) => exists|y: &str| y@ == x@ && tree_result(a, RegisterEdit::StripStart(y), b, ok),
        PeripheralEdit::StripEnd(x) => exists|y: &str| y@ == x@ && tree_result(a, RegisterEdit::StripEnd(y), b, ok),
        PeripheralEdit::AddRegister(x, h) => added_result(a, x@, h@, b, ok),
        PeripheralEdit::CopyRegister(x, h) => copied_result(a, x@, h@, b, ok),
        PeripheralEdit::ProcessRegister(x, h) => exists|y: &str|
            y@ == x@ && tree_result(a, RegisterEdit::Process(y, h, update_fields), b, ok),
        PeripheralEdit::CollectArray(x, h) => array_result(a, x@, h@, b, ok),
        PeripheralEdit::CollectCluster(x, h) => cluster_result(a, x@, h@, b, ok),
    }
}

/// Applying `es` in turn to `a` gives `b`, all succeeding when `ok`; where
/// one fails, `b` is what it left and none after it is applied.
pub open spec fn pedits_applied(a: PeripheralInfo, es: Seq<PeripheralEdit>, update_fields: bool, b: PeripheralInfo, ok: bool) -> bool
    decreases es.len(),
{
    if es.len() == 0 {
        ok && b == a
    } else {
        exists|m: PeripheralInfo, ok1: bool|
            {
                &&& pedit_result(a, es[0], update_fields, m, ok1)
                &&& if ok1 {
                    pedits_applied(m, es.skip(1), update_fields, b, ok)
                } else {
                    !ok && b == m
                }
            }
    }
}

/// Applies one edit to the peripheral.
pub fn apply_pedit(p: &mut PeripheralInfo, e: &PeripheralEdit, update_fields: bool) -> (r: Result<(), PatchError>)
    ensures
        pedit_result(*old(p), *e, update_fields, *final(p), r is Ok),
{
    match e {
        PeripheralEdit::DeleteInterrupt(x) => delete_interrupt(p, x.as_str()),
        PeripheralEdit::ModifyInterrupt(x, h) => modify_interrupt(p, x.as_str(), h),
        PeripheralEdit::AddInterrupt(x, h) => add_interrupt(p, x.as_str(), h),
        PeripheralEdit::DeleteRegister(x) => delete_register(p, x.as_str()),
        PeripheralEdit::ModifyRegister(x, h) => {
            let y = x.as_str();
            let r = modify_register(p, y, h);
            assert(tree_result(*old(p), RegisterEdit::Modify(y, h), *p, r is Ok));
            r
        },
        PeripheralEdit::ModifyCluster(x, h) => modify_cluster(p, x.as_str(), h),
        PeripheralEdit::StripStart(x) => {
            let y = x.as_str();
            let r = strip_start(p, y);
            assert(tree_result(*old(p), RegisterEdit::StripStart(y), *p, r is Ok));
            r
        },
        PeripheralEdit::StripEnd(x) => {
            let y = x.as_str();
            let r = strip_end(p, y);
            assert(tree_result(*old(p), RegisterEdit::StripEnd(y), *p, r is Ok));
            r
        },
        PeripheralEdit::AddRegister(x, h) => add_register(p, x.as_str(), h),
        PeripheralEdit::CopyRegister(x, h) => copy_register(p, x.as_str(), h),
        PeripheralEdit::ProcessRegister(x, h) => {
            let y = x.as_str();
            let r = process_register(p, y, h, update_fields);
            assert(tree_result(*old(p), RegisterEdit::Process(y, h, update_fields), *p, r is Ok));
            r
        },
        PeripheralEdit::CollectArray(x, h) => collect_in_array(p, x.as_str(), h),
        PeripheralEdit::CollectCluster(x, h) => collect_in_cluster(p, x.as_str(), h),
    }
}

/// Extending a chain of applied edits by one that succeeds or fails.
proof fn lemma_pedits_push(
    a: PeripheralInfo,
    es: Seq<PeripheralEdit>,
    u: bool,
    m: PeripheralInfo,
    e: PeripheralEdit,
    b: PeripheralInfo,
    ok: bool,
)
    requires
        pedits_applied(a, es, u, m, true),
        pedit_result(m, e, u, b, ok),
    ensures
        ok ==> pedits_applied(a, es.push(e), u, b, true),
        !ok ==> pedits_applied(a, es.push(e), u, b, false),
    decreases es.len(),
{
    let t = es.push(e);
    if es.len() == 0 {
        assert(t.skip(1) =~= Seq::<PeripheralEdit>::empty());
        assert(t[0] == e);
        if ok {
            assert(pedits_applied(b, t.skip(1), u, b, true));
            assert(pedit_result(a, t[0], u, b, ok) && pedits_applied(b, t.skip(1), u, b, true));
        } else {
            assert(pedit_result(a, t[0], u, b, false) && b == b);
        }
    } else {
        let (x, k) = choose|x: PeripheralInfo, k: bool|
            pedit_result(a, es[0], u, x, k) && if k {
                pedits_applied(x, es.skip(1), u, m, true)
            } else {
                !true && m == x
            };
        assert(k);
        lemma_pedits_push(x, es.skip(1), u, m, e, b, ok);
        assert(t.skip(1) =~= es.skip(1).push(e));
        assert(t[0] == es[0]);
        assert(pedit_result(a, t[0], u, x, k));
    }
}

/// Applies the edits `es` in turn, stopping at the first that fails.
pub fn apply_pedits(p: &mut PeripheralInfo, es: &Vec<PeripheralEdit>, update_fields: bool) -> (r: Result<(), PatchError>)
    ensures
        pedits_applied(*old(p), es@, update_fields, *final(p), r is Ok),
{
    let ghost a = *p;
    let mut i: usize = 0;
    assert(es@.take(0) =~= Seq::<PeripheralEdit>::empty());
    while i < es.len()
        invariant
            i <= es@.len(),
            a == *old(p),
            pedits_applied(a, es@.take(i as int), update_fields, *p, true),
        decreases es@.len() - i,
    {
        let ghost m = *p;
        let r = apply_pedit(p, &es[i], update_fields);
        proof {
            lemma_pedits_push(a, es@.take(i as int), update_fields, m, es@[i as int], *p, r is Ok);
            assert(es@.take(i as int).push(es@[i as int]) =~= es@.take(i + 1));
        }
        match r {
            Ok(()) => {},
            Err(e) => {
                proof {
                    lemma_pedits_prefix_fail(a, es@.take(i + 1), es@, update_fields, *p);
                }
                return Err(e);
            },
        }
        i += 1;
    }
    assert(es@.take(es@.len() as int) =~= es@);
    Ok(())
}

/// A chain that failed stays failed whatever edits follow: they are not
/// applied.
proof fn lemma_pedits_prefix_fail(a: PeripheralInfo, es: Seq<PeripheralEdit>, all: Seq<PeripheralEdit>, u: bool, b: PeripheralInfo)
    requires
        pedits_applied(a, es, u, b, false),
        es.len() <= all.len(),
        all.take(es.len() as int) == es,
    ensures
        pedits_applied(a, all, u, b, false),
    decreases es.len(),
{
    if es.len() > 0 {
        let (x, k) = choose|x: PeripheralInfo, k: bool|
            pedit_result(a, es[0], u, x, k) && if k {
                pedits_applied(x, es.skip(1), u, b, false)
            } else {
                !false && b == x
            };
        assert(all[0] == es[0]);
        if k {
            assert(all.skip(1).take(es.skip(1).len() as int) =~= es.skip(1));
            lemma_pedits_prefix_fail(x, es.skip(1), all.skip(1), u, b);
        }
        assert(pedit_result(a, all[0], u, x, k));
    }
}

/// Work through a peripheral, handling all registers: the mapping is read
/// into edits (see [`peripheral_edits`]; a derived peripheral only takes
/// edits of its interrupts), which are applied in turn as
/// [`pedits_applied`] says. Fails where the mapping cannot be read, or at
/// the first edit that fails.
pub fn process(p: &mut PeripheralInfo, pmod: &Vec<(YamlValue, YamlValue)>, update_fields: bool) -> (r: Result<(), PatchError>)
    ensures
        match peripheral_edits(pmod@, old(p).derived_from is Some) {
            None => r is Err && *final(p) == *old(p),
            Some(es) => pedits_applied(*old(p), es, update_fields, *final(p), r is Ok),
        },
{
    let derived = p.derived_from.is_some();
    let es = match peripheral_edits_of(pmod, derived) {
        Some(v) => v,
        None => return Err(PatchError::Value(owned(p.name.as_str()))),
    };
    apply_pedits(p, &es, update_fields)
}

/// An empty patch asks no edit of a peripheral, derived or not.
pub proof fn lemma_empty_peripheral_patch(derived: bool)
    ensures
        peripheral_edits::<'static>(Seq::empty(), derived) == Some(Seq::<PeripheralEdit<'static>>::empty()),
{
    reveal(texts_of);
    reveal(delete_edits);
    let e = Seq::<(YamlValue, YamlValue)>::empty();
    assert(get_key_spec(e, "_delete"@) is None);
    assert(peripheral_edits::<'static>(e, derived) =~= Some(Seq::<PeripheralEdit<'static>>::empty()));
}

/// Applying no edit leaves the peripheral as it is, and succeeds.
pub proof fn lemma_no_pedits(a: PeripheralInfo, u: bool, b: PeripheralInfo, ok: bool)
    requires
        pedits_applied(a, Seq::empty(), u, b, ok),
    ensures
        ok && b == a,
{
}

/// An edit that succeeds keeps the name, the base address and the
/// derivation of the peripheral.
proof fn lemma_pedit_keeps_identity(a: PeripheralInfo, e: PeripheralEdit, u: bool, b: PeripheralInfo)
    requires
        pedit_result(a, e, u, b, true),
    ensures
        b.name == a.name,
        b.base_address == a.base_address,
        b.derived_from == a.derived_from,
{
}

/// Processing a peripheral that succeeds never renames it, moves it or
/// changes what it derives from: the edits of a patch touch its
/// registers and interrupts only.
pub proof fn lemma_processing_keeps_identity(a: PeripheralInfo, es: Seq<PeripheralEdit>, u: bool, b: PeripheralInfo)
    requires
        pedits_applied(a, es, u, b, true),
    ensures
        b.name == a.name,
        b.base_address == a.base_address,
        b.derived_from == a.derived_from,
    decreases es.len(),
{
    if es.len() > 0 {
        let (m, k) = choose|m: PeripheralInfo, k: bool|
            pedit_result(a, es[0], u, m, k) && if k {
                pedits_applied(m, es.skip(1), u, b, true)
            } else {
                !true && b == m
            };
        lemma_pedit_keeps_identity(a, es[0], u, m);
        lemma_processing_keeps_identity(m, es.skip(1), u, b);
    }
}

} // verus!
