//! Applying the edits of a patch file to the fields of a register: the
//! patch is read into a list of edits, which are then applied in turn.
use vstd::prelude::*;

use crate::patch::collect::{
    array_description, array_name_ok, collect_fields_in_array, cuts_ok, first_single_at, increment_of, indices_ok,
    offsets_of, other_fields, pattern_cut_ok, single_matches, singles_testable, sort_by_offset,
};
use crate::patch::enums::{enums_done, enums_ok, process_field_enum};
use crate::patch::error::PatchError;
use crate::patch::make::{field_range_of, new_field_model, VAL_LVL};
use crate::patch::names::{evenly_spaced, left_token, right_token};
use crate::patch::register::{
    add_field, clear_field, delete_field, each_field, field_cleared, field_constrained, field_modified, field_named,
    field_names_testable, fields_stripped, first_match_at, kept_fields, match_count, merge_fields, merge_names,
    merged_field, merged_name, merged_width, modified_model, modify_field, not_in, not_named, process_field_range,
    range_of, scan_fields, some_field_matches, some_strip_fails, split_description, split_fields, split_fits,
    split_name, split_parts_at, strip_end, strip_start, wc_entry, wc_of_value,
};
use crate::patch::yaml::{get_key, get_key_spec, YamlValue};
use crate::register::fields_of;
use crate::text::{lcp_upto, owned, splits_at, utf8};
use crate::{Field, RegisterInfo, Usage, WriteConstraint};

verus! {

/// One edit that a patch file asks of the fields of a register.
pub enum FieldEdit<'a> {
    /// Delete the fields that a pattern matches
    Delete(&'a String),
    /// Clear the enumerations and write constraints of matched fields
    Clear(&'a String),
    /// Modify the matched fields
    Modify(&'a String, &'a Vec<(YamlValue, YamlValue)>),
    /// Add a field
    Add(&'a String, &'a Vec<(YamlValue, YamlValue)>),
    /// Merge fields
    Merge(&'a String, Option<&'a YamlValue>),
    /// Split a field into fields one bit wide
    Split(&'a String, Option<&'a Vec<(YamlValue, YamlValue)>>),
    /// Strip a prefix from the field names
    StripStart(&'a String),
    /// Strip a suffix from the field names
    StripEnd(&'a String),
    /// Give the matched fields enumerated values of a usage
    Enum(&'a String, &'a Vec<(YamlValue, YamlValue)>, Usage),
    /// Give the matched fields a range write constraint
    Range(&'a String, &'a Vec<YamlValue>),
    /// Collect the matched fields into an array
    Array(&'a String, &'a Vec<(YamlValue, YamlValue)>),
}

/// The mapping of a split, an absent one counting as empty.
pub open spec fn split_map(o: Option<&Vec<(YamlValue, YamlValue)>>) -> Seq<(YamlValue, YamlValue)> {
    match o {
        Some(h) => h@,
        None => Seq::empty(),
    }
}

/// The value of a merge, as a value.
pub open spec fn merge_value(o: Option<&YamlValue>) -> Option<YamlValue> {
    match o {
        Some(y) => Some(*y),
        None => None,
    }
}

/// Edit `e` can be applied to `reg`.
pub open spec fn edit_ok(reg: RegisterInfo, e: FieldEdit) -> bool {
    let s = fields_of(reg.fields);
    match e {
        FieldEdit::Delete(p) => field_names_testable(s, p@),
        FieldEdit::Clear(p) => field_names_testable(s, p@),
        FieldEdit::Modify(p, h) => field_names_testable(s, p@) && (some_field_matches(s, p@) ==> (wc_entry(h@) is Some
            ==> wc_of_value(wc_entry(h@)->0) is Some)) && forall|i: int|
            0 <= i < s.len() && crate::patch::register::field_matches(#[trigger] s[i], p@) ==> modified_model(
                s[i],
                h@,
            ).validate_spec(VAL_LVL, Ok(())),
        FieldEdit::Add(n, h) => !field_named(s, n@) && field_range_of(h@) is Some && new_field_model(
            h@,
            n@,
        ).validate_spec(VAL_LVL, Ok(())),
        FieldEdit::Merge(k, v) => {
            let o = merge_names(s, k@, merge_value(v));
            o is Some && o->0.len() > 0 && (v is None ==> splits_at(o->0[0], lcp_upto(o->0, o->0.len() as int)))
                && 0 < merged_width(s, o->0) <= u32::MAX
        },
        FieldEdit::Split(p, _) => field_names_testable(s, p@) && match_count(s, p@) == 1 && split_fits(
            s[first_match_at(s, p@)],
        ),
        FieldEdit::StripStart(p) => !some_strip_fails(s, p@, true),
        FieldEdit::StripEnd(p) => !some_strip_fails(s, p@, false),
        FieldEdit::Enum(p, h, u) => enums_ok(reg, p@, h@, u),
        FieldEdit::Range(p, a) => field_names_testable(s, p@) && some_field_matches(s, p@) && range_of(a@) is Some,
        FieldEdit::Array(p, h) => reg.fields is None || {
            let b = utf8(p@);
            let li = left_token(b)->0;
            let ri = right_token(b)->0;
            let sorted = sort_by_offset(single_matches(s, p@));
            let zero = get_key_spec(h@, "_start_from_zero"@) is Some;
            left_token(b) is Some && right_token(b) is Some && singles_testable(s, p@) && single_matches(s, p@).len()
                > 0 && (zero || cuts_ok(sorted, li, ri)) && evenly_spaced(offsets_of(sorted), increment_of(sorted))
                && pattern_cut_ok(h@, p@, li, ri)
        },
    }
}

/// Register `new` is `old` once edit `e` is applied.
pub open spec fn edit_done(old: RegisterInfo, e: FieldEdit, new: RegisterInfo) -> bool {
    let s = fields_of(old.fields);
    let t = fields_of(new.fields);
    let rest_same = new == (RegisterInfo { fields: new.fields, ..old });
    match e {
        FieldEdit::Delete(p) => rest_same && match old.fields {
            Some(v) => new.fields matches Some(w) && w@ == kept_fields(v@, p@),
            None => new.fields is None,
        },
        FieldEdit::Clear(p) => rest_same && (new.fields is Some) == (old.fields is Some) && t.len() == s.len()
            && forall|i: int| 0 <= i < s.len() ==> field_cleared(s[i], #[trigger] t[i], p@),
        FieldEdit::Modify(p, h) => each_field(old, new, |f: Field, g: Field| field_modified(f, g, p@, h@)),
        FieldEdit::Add(n, h) => rest_same && new.fields is Some && t.len() == s.len() + 1 && t.drop_last() == s && (
        t.last() matches Field::Single(f) && f@ == new_field_model(h@, n@)),
        FieldEdit::Merge(k, v) => {
            let names = merge_names(s, k@, merge_value(v))->0;
            &&& rest_same
            &&& new.fields is Some
            &&& t.len() > 0
            &&& t.drop_last() == not_in(s, names)
            &&& t.last() matches Field::Single(g) && merged_name(k@, merge_value(v), names, g@.name) && g@
                == merged_field(s, names, g@.name)
        },
        FieldEdit::Split(p, h) => {
            let f = s[first_match_at(s, p@)];
            let kept = not_named(s, f.info_spec().name@);
            &&& rest_same
            &&& new.fields is Some
            &&& t.take(kept.len() as int) == kept
            &&& split_parts_at(
                t,
                kept.len() as int,
                split_name(split_map(h), f),
                split_description(split_map(h), f),
                f.info_spec().bit_range.offset,
                f.info_spec().bit_range.width as nat,
            )
        },
        FieldEdit::StripStart(p) => fields_stripped(old, new, p@, true),
        FieldEdit::StripEnd(p) => fields_stripped(old, new, p@, false),
        FieldEdit::Enum(p, h, u) => enums_done(old, new, p@, h@, u),
        FieldEdit::Range(p, a) => each_field(
            old,
            new,
            |f: Field, g: Field| field_constrained(f, g, p@, Some(WriteConstraint::Range(range_of(a@)->0))),
        ),
        FieldEdit::Array(p, h) => if old.fields is None {
            new == old
        } else {
            let b = utf8(p@);
            let li = left_token(b)->0;
            let ri = right_token(b)->0;
            let sorted = sort_by_offset(single_matches(s, p@));
            let zero = get_key_spec(h@, "_start_from_zero"@) is Some;
            let other = other_fields(s, p@);
            let q = first_single_at(s, p@);
            &&& rest_same
            &&& new.fields is Some
            &&& t.len() == other.len() + 1
            &&& t.take(q) == other.take(q)
            &&& t.skip(q + 1) == other.skip(q)
            &&& t[q] matches Field::Array(g, d) && {
                &&& g == (crate::FieldInfo { name: g.name, description: g.description, ..sorted[0] })
                &&& array_name_ok(h@, p@, li, ri, g.name@)
                &&& d@.dim == sorted.len() as u32
                &&& d@.dim_increment == increment_of(sorted)
                &&& d@.dim_index matches Some(idx) && indices_ok(sorted, zero, li, ri, idx) && array_description(
                    crate::field::opt_chars(sorted[0].description),
                    idx,
                    crate::field::opt_chars(g.description),
                )
                &&& d@.dim_name is None
                &&& d@.dim_array_index is None
            }
        },
    }
}

/// Applying `es` in turn to `a` gives `b` when `ok`; when not `ok`, one of
/// them cannot be applied to the register that the ones before gave.
pub open spec fn edits_applied(a: RegisterInfo, es: Seq<FieldEdit>, b: RegisterInfo, ok: bool) -> bool
    decreases es.len(),
{
    if es.len() == 0 {
        ok && b == a
    } else {
        (edit_ok(a, es[0]) && exists|m: RegisterInfo| edit_done(a, es[0], m) && edits_applied(m, es.skip(1), b, ok))
            || (!ok && !edit_ok(a, es[0]))
    }
}

/// Any one edit changes the fields of a register and nothing else.
pub proof fn lemma_edit_keeps_register(a: RegisterInfo, e: FieldEdit, b: RegisterInfo)
    requires
        edit_done(a, e, b),
    ensures
        b == (RegisterInfo { fields: b.fields, ..a }),
{
}

/// Applying the edits of a patch to a register changes its fields and
/// nothing else: name, address offset, description and properties stay.
pub proof fn lemma_edits_keep_register(a: RegisterInfo, es: Seq<FieldEdit>, b: RegisterInfo)
    requires
        edits_applied(a, es, b, true),
    ensures
        b == (RegisterInfo { fields: b.fields, ..a }),
    decreases es.len(),
{
    if es.len() > 0 {
        let m = choose|m: RegisterInfo| edit_done(a, es[0], m) && edits_applied(m, es.skip(1), b, true);
        lemma_edit_keeps_register(a, es[0], m);
        lemma_edits_keep_register(m, es.skip(1), b);
    }
}

/// Extending a chain of applied edits by one more.
proof fn lemma_applied_push(a: RegisterInfo, es: Seq<FieldEdit>, m: RegisterInfo, e: FieldEdit, b: RegisterInfo)
    requires
        edits_applied(a, es, m, true),
        edit_ok(m, e),
        edit_done(m, e, b),
    ensures
        edits_applied(a, es.push(e), b, true),
    decreases es.len(),
{
    let t = es.push(e);
    if es.len() == 0 {
        assert(t.skip(1) =~= Seq::<FieldEdit>::empty());
        assert(edits_applied(b, t.skip(1), b, true));
        assert(t[0] == e);
        assert(edit_done(a, t[0], b) && edits_applied(b, t.skip(1), b, true));
    } else {
        let x = choose|x: RegisterInfo| edit_done(a, es[0], x) && edits_applied(x, es.skip(1), m, true);
        lemma_applied_push(x, es.skip(1), m, e, b);
        assert(t.skip(1) =~= es.skip(1).push(e));
        assert(t[0] == es[0]);
        assert(edit_done(a, t[0], x) && edits_applied(x, t.skip(1), b, true));
    }
}

/// A chain that ends in an edit that cannot be applied fails.
proof fn lemma_applied_fail(a: RegisterInfo, es: Seq<FieldEdit>, m: RegisterInfo, rest: Seq<FieldEdit>, b: RegisterInfo)
    requires
        edits_applied(a, es, m, true),
        rest.len() > 0,
        !edit_ok(m, rest[0]),
    ensures
        edits_applied(a, es + rest, b, false),
    decreases es.len(),
{
    if es.len() == 0 {
        assert(es + rest =~= rest);
    } else {
        let x = choose|x: RegisterInfo| edit_done(a, es[0], x) && edits_applied(x, es.skip(1), m, true);
        lemma_applied_fail(x, es.skip(1), m, rest, b);
        assert((es + rest).skip(1) =~= es.skip(1) + rest);
        assert((es + rest)[0] == es[0]);
    }
}

/// Applies edit `e` to `reg`.
pub fn apply_edit(reg: &mut RegisterInfo, pname: &str, e: &FieldEdit) -> (r: Result<(), PatchError>)
    ensures
        r is Ok <==> edit_ok(*old(reg), *e),
        r is Ok ==> edit_done(*old(reg), *e, *final(reg)),
{
    match e {
        FieldEdit::Delete(p) => {
            match scan_fields(reg.fields(), p.as_str()) {
                Err(x) => return Err(x),
                Ok(_) => {},
            }
            delete_field(reg, p.as_str());
            Ok(())
        },
        FieldEdit::Clear(p) => {
            match scan_fields(reg.fields(), p.as_str()) {
                Err(x) => return Err(x),
                Ok(_) => {},
            }
            clear_field(reg, p.as_str());
            Ok(())
        },
        FieldEdit::Modify(p, h) => modify_field(reg, p.as_str(), h),
        FieldEdit::Add(n, h) => add_field(reg, n.as_str(), h),
        FieldEdit::Merge(k, v) => merge_fields(reg, k.as_str(), *v),
        FieldEdit::Split(p, h) => match h {
            Some(m) => split_fields(reg, p.as_str(), m),
            None => {
                let empty: Vec<(YamlValue, YamlValue)> = Vec::new();
                split_fields(reg, p.as_str(), &empty)
            },
        },
        FieldEdit::StripStart(p) => strip_start(reg, p.as_str()),
        FieldEdit::StripEnd(p) => strip_end(reg, p.as_str()),
        FieldEdit::Enum(p, h, u) => process_field_enum(reg, pname, p.as_str(), h, *u),
        FieldEdit::Range(p, a) => process_field_range(reg, pname, p.as_str(), a),
        FieldEdit::Array(p, h) => collect_fields_in_array(reg, p.as_str(), h),
    }
}

/// Applies the edits `es` in turn, stopping at the first that fails.
#[verifier::rlimit(60)]
#[verifier::spinoff_prover]
pub fn apply_edits(reg: &mut RegisterInfo, pname: &str, es: &Vec<FieldEdit>) -> (r: Result<(), PatchError>)
    ensures
        edits_applied(*old(reg), es@, *final(reg), r is Ok),
{
    let mut i: usize = 0;
    assert(edits_applied(*reg, es@.take(0), *reg, true));
    while i < es.len()
        invariant
            i <= es@.len(),
            edits_applied(*old(reg), es@.take(i as int), *reg, true),
        decreases es@.len() - i,
    {
        let ghost before = *reg;
        match apply_edit(reg, pname, &es[i]) {
            Err(x) => {
                proof {
                    lemma_applied_fail(*old(reg), es@.take(i as int), before, es@.skip(i as int), *reg);
                    assert(es@.take(i as int) + es@.skip(i as int) =~= es@);
                }
                return Err(x);
            },
            Ok(()) => {},
        }
        proof {
            lemma_applied_push(*old(reg), es@.take(i as int), before, es@[i as int], *reg);
            assert(es@.take(i as int).push(es@[i as int]) =~= es@.take(i + 1));
        }
        i += 1;
    }
    assert(es@.take(es@.len() as int) =~= es@);
    Ok(())
}

// ---------------------------------------------------------------------------
// Reading the edits out of a patch
// ---------------------------------------------------------------------------

/// The edits that take a single pattern.
#[derive(Clone, Copy)]
pub enum TextKind {
    /// Deleting
    Delete,
    /// Clearing
    Clear,
    /// Stripping a prefix
    StripStart,
    /// Stripping a suffix
    StripEnd,
}

/// The edits that take a name and a mapping.
#[derive(Clone, Copy)]
pub enum PairKind {
    /// Modifying
    Modify,
    /// Adding
    Add,
    /// Collecting into an array
    Array,
}

/// The edit of kind `k` with the pattern `t`.
pub open spec fn text_edit<'a>(k: TextKind, t: &'a String) -> FieldEdit<'a> {
    match k {
        TextKind::Delete => FieldEdit::Delete(t),
        TextKind::Clear => FieldEdit::Clear(t),
        TextKind::StripStart => FieldEdit::StripStart(t),
        TextKind::StripEnd => FieldEdit::StripEnd(t),
    }
}

/// The edit of kind `k` with the name `t` and the mapping `h`.
pub open spec fn pair_edit<'a>(k: PairKind, t: &'a String, h: &'a Vec<(YamlValue, YamlValue)>) -> FieldEdit<'a> {
    match k {
        PairKind::Modify => FieldEdit::Modify(t, h),
        PairKind::Add => FieldEdit::Add(t, h),
        PairKind::Array => FieldEdit::Array(t, h),
    }
}

/// Two lists of edits one after the other, where both could be read.
pub open spec fn then<'a>(a: Option<Seq<FieldEdit<'a>>>, b: Option<Seq<FieldEdit<'a>>>) -> Option<Seq<FieldEdit<'a>>> {
    match (a, b) {
        (Some(x), Some(y)) => Some(x + y),
        _ => None,
    }
}

/// The edits of kind `k`, one per text of a list (other items are left
/// out).
pub open spec fn list_text_edits<'a>(items: Seq<YamlValue>, k: TextKind) -> Seq<FieldEdit<'a>>
    decreases items.len(),
{
    if items.len() == 0 {
        Seq::empty()
    } else {
        list_text_edits(items.drop_last(), k) + match items.last() {
            YamlValue::String(t) => seq![text_edit(k, &t)],
            _ => Seq::empty(),
        }
    }
}

/// The edits of kind `k` that a value asks: one for a text, one per text of
/// a list, none else.
#[verifier::opaque]
pub open spec fn text_edits<'a>(v: Option<YamlValue>, k: TextKind) -> Seq<FieldEdit<'a>> {
    match v {
        Some(YamlValue::String(t)) => seq![text_edit(k, &t)],
        Some(YamlValue::Array(a)) => list_text_edits(a@, k),
        _ => Seq::empty(),
    }
}

/// The edits of kind `k`, one per entry: each must map a text to a mapping.
pub open spec fn pair_edits<'a>(entries: Seq<(YamlValue, YamlValue)>, k: PairKind) -> Option<Seq<FieldEdit<'a>>>
    decreases entries.len(),
{
    if entries.len() == 0 {
        Some(Seq::empty())
    } else {
        then(
            pair_edits(entries.drop_last(), k),
            match entries.last() {
                (YamlValue::String(t), YamlValue::Hash(h)) => Some(seq![pair_edit(k, &t, &h)]),
                _ => None,
            },
        )
    }
}

/// The edits of kind `k` that a value asks: those of its entries for a
/// mapping, none else.
#[verifier::opaque]
pub open spec fn map_edits<'a>(v: Option<YamlValue>, k: PairKind) -> Option<Seq<FieldEdit<'a>>> {
    match v {
        Some(YamlValue::Hash(m)) => pair_edits(m@, k),
        _ => Some(Seq::empty()),
    }
}

/// The merges of a mapping: one per entry, whose key must be a text.
pub open spec fn merge_entries<'a>(entries: Seq<(YamlValue, YamlValue)>) -> Option<Seq<FieldEdit<'a>>>
    decreases entries.len(),
{
    if entries.len() == 0 {
        Some(Seq::empty())
    } else {
        then(
            merge_entries(entries.drop_last()),
            match entries.last() {
                (YamlValue::String(t), v) => Some(seq![FieldEdit::Merge(&t, Some(&v))]),
                _ => None,
            },
        )
    }
}

/// The merges of a list: one per item, which must be a text.
pub open spec fn merge_items<'a>(items: Seq<YamlValue>) -> Option<Seq<FieldEdit<'a>>>
    decreases items.len(),
{
    if items.len() == 0 {
        Some(Seq::empty())
    } else {
        then(
            merge_items(items.drop_last()),
            match items.last() {
                YamlValue::String(t) => Some(seq![FieldEdit::Merge(&t, None)]),
                _ => None,
            },
        )
    }
}

/// The splits of a mapping: one per entry, which must map a text to a
/// mapping.
pub open spec fn split_entries<'a>(entries: Seq<(YamlValue, YamlValue)>) -> Option<Seq<FieldEdit<'a>>>
    decreases entries.len(),
{
    if entries.len() == 0 {
        Some(Seq::empty())
    } else {
        then(
            split_entries(entries.drop_last()),
            match entries.last() {
                (YamlValue::String(t), YamlValue::Hash(h)) => Some(seq![FieldEdit::Split(&t, Some(&h))]),
                _ => None,
            },
        )
    }
}

/// The splits of a list: one per item, which must be a text.
pub open spec fn split_items<'a>(items: Seq<YamlValue>) -> Option<Seq<FieldEdit<'a>>>
    decreases items.len(),
{
    if items.len() == 0 {
        Some(Seq::empty())
    } else {
        then(
            split_items(items.drop_last()),
            match items.last() {
                YamlValue::String(t) => Some(seq![FieldEdit::Split(&t, None)]),
                _ => None,
            },
        )
    }
}

/// The merges or splits that a value asks.
#[verifier::opaque]
pub open spec fn merge_edits<'a>(v: Option<YamlValue>, split: bool) -> Option<Seq<FieldEdit<'a>>> {
    match v {
        Some(YamlValue::Hash(m)) => if split {
            split_entries(m@)
        } else {
            merge_entries(m@)
        },
        Some(YamlValue::Array(a)) => if split {
            split_items(a@)
        } else {
            merge_items(a@)
        },
        _ => Some(Seq::empty()),
    }
}

/// The edits that the value `v` for the fields `p` asks: enumerated values
/// (read-write, or those under `_read` then `_write`, which must be
/// mappings) for a mapping, a write constraint for a pair, none else.
pub open spec fn field_value_edits<'a>(p: &'a String, v: YamlValue) -> Option<Seq<FieldEdit<'a>>> {
    match v {
        YamlValue::Hash(h) => {
            let r = get_key_spec(h@, "_read"@);
            let w = get_key_spec(h@, "_write"@);
            if r is None && w is None {
                Some(seq![FieldEdit::Enum(p, &h, Usage::ReadWrite)])
            } else {
                then(
                    match r {
                        Some(YamlValue::Hash(x)) => Some(seq![FieldEdit::Enum(p, &x, Usage::Read)]),
                        Some(_) => None,
                        None => Some(Seq::empty()),
                    },
                    match w {
                        Some(YamlValue::Hash(x)) => Some(seq![FieldEdit::Enum(p, &x, Usage::Write)]),
                        Some(_) => None,
                        None => Some(Seq::empty()),
                    },
                )
            }
        },
        YamlValue::Array(a) => if a@.len() == 2 {
            Some(seq![FieldEdit::Range(p, &a)])
        } else {
            Some(Seq::empty())
        },
        _ => Some(Seq::empty()),
    }
}

/// The edits of the entries of a register mapping that name fields: every
/// key must be a text; those that do not start with `_` name fields.
pub open spec fn field_entries<'a>(entries: Seq<(YamlValue, YamlValue)>) -> Option<Seq<FieldEdit<'a>>>
    decreases entries.len(),
{
    if entries.len() == 0 {
        Some(Seq::empty())
    } else {
        then(
            field_entries(entries.drop_last()),
            match entries.last() {
                (YamlValue::String(t), v) => if t@.len() > 0 && t@[0] == '_' {
                    Some(Seq::empty())
                } else {
                    field_value_edits(&t, v)
                },
                _ => None,
            },
        )
    }
}

/// The edits that the mapping `h` of a register asks, in the order in which
/// they are applied: deletions, clearings, modifications, additions,
/// merges, splits, prefixes and suffixes stripped, the fields themselves
/// (when `update`), arrays. `None` where a part has not the expected kind.
pub open spec fn field_edits<'a>(h: Seq<(YamlValue, YamlValue)>, update: bool) -> Option<Seq<FieldEdit<'a>>> {
    then(
        Some(
            text_edits(get_key_spec(h, "_delete"@), TextKind::Delete) + text_edits(
                get_key_spec(h, "_clear"@),
                TextKind::Clear,
            ),
        ),
        then(
            map_edits(get_key_spec(h, "_modify"@), PairKind::Modify),
            then(
                map_edits(get_key_spec(h, "_add"@), PairKind::Add),
                then(
                    merge_edits(get_key_spec(h, "_merge"@), false),
                    then(merge_edits(get_key_spec(h, "_split"@), true), later_edits(h, update)),
                ),
            ),
        ),
    )
}

proof fn lemma_pairs_fail(s: Seq<(YamlValue, YamlValue)>, k: PairKind, j: int)
    requires
        0 <= j <= s.len(),
        pair_edits(s.take(j), k) is None,
    ensures
        pair_edits(s, k) is None,
    decreases s.len() - j,
{
    if j < s.len() {
        assert(s.take(j + 1).drop_last() =~= s.take(j));
        lemma_pairs_fail(s, k, j + 1);
    } else {
        assert(s.take(j) =~= s);
    }
}

proof fn lemma_merge_entries_fail(s: Seq<(YamlValue, YamlValue)>, j: int)
    requires
        0 <= j <= s.len(),
        merge_entries(s.take(j)) is None,
    ensures
        merge_entries(s) is None,
    decreases s.len() - j,
{
    if j < s.len() {
        assert(s.take(j + 1).drop_last() =~= s.take(j));
        lemma_merge_entries_fail(s, j + 1);
    } else {
        assert(s.take(j) =~= s);
    }
}

proof fn lemma_split_entries_fail(s: Seq<(YamlValue, YamlValue)>, j: int)
    requires
        0 <= j <= s.len(),
        split_entries(s.take(j)) is None,
    ensures
        split_entries(s) is None,
    decreases s.len() - j,
{
    if j < s.len() {
        assert(s.take(j + 1).drop_last() =~= s.take(j));
        lemma_split_entries_fail(s, j + 1);
    } else {
        assert(s.take(j) =~= s);
    }
}

proof fn lemma_merge_items_fail(s: Seq<YamlValue>, j: int)
    requires
        0 <= j <= s.len(),
        merge_items(s.take(j)) is None,
    ensures
        merge_items(s) is None,
    decreases s.len() - j,
{
    if j < s.len() {
        assert(s.take(j + 1).drop_last() =~= s.take(j));
        lemma_merge_items_fail(s, j + 1);
    } else {
        assert(s.take(j) =~= s);
    }
}

proof fn lemma_split_items_fail(s: Seq<YamlValue>, j: int)
    requires
        0 <= j <= s.len(),
        split_items(s.take(j)) is None,
    ensures
        split_items(s) is None,
    decreases s.len() - j,
{
    if j < s.len() {
        assert(s.take(j + 1).drop_last() =~= s.take(j));
        lemma_split_items_fail(s, j + 1);
    } else {
        assert(s.take(j) =~= s);
    }
}

proof fn lemma_field_entries_fail(s: Seq<(YamlValue, YamlValue)>, j: int)
    requires
        0 <= j <= s.len(),
        field_entries(s.take(j)) is None,
    ensures
        field_entries(s) is None,
    decreases s.len() - j,
{
    if j < s.len() {
        assert(s.take(j + 1).drop_last() =~= s.take(j));
        lemma_field_entries_fail(s, j + 1);
    } else {
        assert(s.take(j) =~= s);
    }
}

/// A value held by reference, as a value.
pub open spec fn deref_opt(v: Option<&YamlValue>) -> Option<YamlValue> {
    match v {
        Some(y) => Some(*y),
        None => None,
    }
}

/// Appends the edits of kind `k` that the value `v` asks (see
/// [`text_edits`]).
fn push_texts<'a>(out: &mut Vec<FieldEdit<'a>>, v: Option<&'a YamlValue>, k: TextKind)
    ensures
        final(out)@ == old(out)@ + text_edits(deref_opt(v), k),
{
    reveal(text_edits);
    match v {
        Some(YamlValue::String(t)) => {
            let e = match k {
                TextKind::Delete => FieldEdit::Delete(t),
                TextKind::Clear => FieldEdit::Clear(t),
                TextKind::StripStart => FieldEdit::StripStart(t),
                TextKind::StripEnd => FieldEdit::StripEnd(t),
            };
            out.push(e);
            assert(out@ =~= old(out)@ + seq![text_edit(k, t)]);
        },
        Some(YamlValue::Array(a)) => {
            let ghost start = out@;
            let mut i: usize = 0;
            while i < a.len()
                invariant
                    i <= a@.len(),
                    out@ == start + list_text_edits(a@.take(i as int), k),
                decreases a@.len() - i,
            {
                let ghost t = a@.take(i + 1);
                assert(t.drop_last() =~= a@.take(i as int));
                assert(t.last() == a@[i as int]);
                match &a[i] {
                    YamlValue::String(x) => {
                        let e = match k {
                            TextKind::Delete => FieldEdit::Delete(x),
                            TextKind::Clear => FieldEdit::Clear(x),
                            TextKind::StripStart => FieldEdit::StripStart(x),
                            TextKind::StripEnd => FieldEdit::StripEnd(x),
                        };
                        out.push(e);
                    },
                    _ => {},
                }
                i += 1;
                assert(out@ =~= start + list_text_edits(a@.take(i as int), k));
            }
            assert(a@.take(a@.len() as int) =~= a@);
        },
        _ => {
            assert(out@ =~= old(out)@ + Seq::<FieldEdit>::empty());
        },
    }
}

/// Appends the edits of kind `k` that the value `v` asks (see
/// [`map_edits`]); `false` where they cannot be read.
fn push_pairs<'a>(out: &mut Vec<FieldEdit<'a>>, v: Option<&'a YamlValue>, k: PairKind) -> (r: bool)
    ensures
        r == map_edits(deref_opt(v), k) is Some,
        r ==> final(out)@ == old(out)@ + map_edits(deref_opt(v), k)->0,
{
    reveal(map_edits);
    match v {
        Some(YamlValue::Hash(m)) => {
            assert(deref_opt(v) == Some(YamlValue::Hash(*m)));
            assert(map_edits::<'a>(deref_opt(v), k) == pair_edits::<'a>(m@, k));
            let ghost start = out@;
            let mut i: usize = 0;
            while i < m.len()
                invariant
                    i <= m@.len(),
                    map_edits::<'a>(deref_opt(v), k) == pair_edits::<'a>(m@, k),
                    pair_edits::<'a>(m@.take(i as int), k) is Some,
                    out@ == start + pair_edits(m@.take(i as int), k)->0,
                decreases m@.len() - i,
            {
                let ghost t = m@.take(i + 1);
                assert(t.drop_last() =~= m@.take(i as int));
                assert(t.last() == m@[i as int]);
                let (key, val) = &m[i];
                match (key, val) {
                    (YamlValue::String(x), YamlValue::Hash(h)) => {
                        let e = match k {
                            PairKind::Modify => FieldEdit::Modify(x, h),
                            PairKind::Add => FieldEdit::Add(x, h),
                            PairKind::Array => FieldEdit::Array(x, h),
                        };
                        out.push(e);
                    },
                    _ => {
                        proof {
                            assert(t.last().0 == *key);
                            assert(pair_edits::<'a>(t, k) is None);
                            lemma_pairs_fail(m@, k, i + 1);
                            assert(pair_edits::<'a>(m@, k) is None);
                        }
                        return false;
                    },
                }
                i += 1;
                assert(out@ =~= start + pair_edits::<'a>(m@.take(i as int), k)->0);
            }
            assert(m@.take(m@.len() as int) =~= m@);
            true
        },
        _ => {
            assert(out@ =~= old(out)@ + Seq::<FieldEdit>::empty());
            true
        },
    }
}

/// Appends the merges (or splits) that the value `v` asks (see
/// [`merge_edits`]); `false` where they cannot be read.
fn push_merges<'a>(out: &mut Vec<FieldEdit<'a>>, v: Option<&'a YamlValue>, split: bool) -> (r: bool)
    ensures
        r == merge_edits(deref_opt(v), split) is Some,
        r ==> final(out)@ == old(out)@ + merge_edits(deref_opt(v), split)->0,
{
    reveal(merge_edits);
    match v {
        Some(YamlValue::Hash(m)) => {
            assert(deref_opt(v) == Some(YamlValue::Hash(*m)));
            let ghost start = out@;
            let mut i: usize = 0;
            while i < m.len()
                invariant
                    i <= m@.len(),
                    merge_edits::<'a>(deref_opt(v), split) == if split {
                        split_entries::<'a>(m@)
                    } else {
                        merge_entries::<'a>(m@)
                    },
                    split ==> split_entries::<'a>(m@.take(i as int)) is Some && out@ == start + split_entries(
                        m@.take(i as int),
                    )->0,
                    !split ==> merge_entries::<'a>(m@.take(i as int)) is Some && out@ == start + merge_entries(
                        m@.take(i as int),
                    )->0,
                decreases m@.len() - i,
            {
                let ghost t = m@.take(i + 1);
                assert(t.drop_last() =~= m@.take(i as int));
                assert(t.last() == m@[i as int]);
                let (key, val) = &m[i];
                match key {
                    YamlValue::String(x) => {
                        if split {
                            match val {
                                YamlValue::Hash(h) => {
                                    out.push(FieldEdit::Split(x, Some(h)));
                                },
                                _ => {
                                    proof {
                                        lemma_split_entries_fail(m@, i + 1);
                                    }
                                    return false;
                                },
                            }
                        } else {
                            out.push(FieldEdit::Merge(x, Some(val)));
                        }
                    },
                    _ => {
                        proof {
                            if split {
                                lemma_split_entries_fail(m@, i + 1);
                            } else {
                                lemma_merge_entries_fail(m@, i + 1);
                            }
                        }
                        return false;
                    },
                }
                i += 1;
                proof {
                    if split {
                        assert(out@ =~= start + split_entries::<'a>(m@.take(i as int))->0);
                    } else {
                        assert(out@ =~= start + merge_entries::<'a>(m@.take(i as int))->0);
                    }
                }
            }
            assert(m@.take(m@.len() as int) =~= m@);
            true
        },
        Some(YamlValue::Array(a)) => {
            assert(deref_opt(v) == Some(YamlValue::Array(*a)));
            let ghost start = out@;
            let mut i: usize = 0;
            while i < a.len()
                invariant
                    i <= a@.len(),
                    merge_edits::<'a>(deref_opt(v), split) == if split {
                        split_items::<'a>(a@)
                    } else {
                        merge_items::<'a>(a@)
                    },
                    split ==> split_items::<'a>(a@.take(i as int)) is Some && out@ == start + split_items(
                        a@.take(i as int),
                    )->0,
                    !split ==> merge_items::<'a>(a@.take(i as int)) is Some && out@ == start + merge_items(
                        a@.take(i as int),
                    )->0,
                decreases a@.len() - i,
            {
                let ghost t = a@.take(i + 1);
                assert(t.drop_last() =~= a@.take(i as int));
                assert(t.last() == a@[i as int]);
                match &a[i] {
                    YamlValue::String(x) => {
                        if split {
                            out.push(FieldEdit::Split(x, None));
                        } else {
                            out.push(FieldEdit::Merge(x, None));
                        }
                    },
                    _ => {
                        proof {
                            if split {
                                lemma_split_items_fail(a@, i + 1);
                            } else {
                                lemma_merge_items_fail(a@, i + 1);
                            }
                        }
                        return false;
                    },
                }
                i += 1;
                proof {
                    if split {
                        assert(out@ =~= start + split_items::<'a>(a@.take(i as int))->0);
                    } else {
                        assert(out@ =~= start + merge_items::<'a>(a@.take(i as int))->0);
                    }
                }
            }
            assert(a@.take(a@.len() as int) =~= a@);
            true
        },
        _ => {
            assert(out@ =~= old(out)@ + Seq::<FieldEdit>::empty());
            true
        },
    }
}

/// Appends the edits that the value `v` for the fields `p` asks (see
/// [`field_value_edits`]); `false` where they cannot be read.
fn push_field_value<'a>(out: &mut Vec<FieldEdit<'a>>, p: &'a String, v: &'a YamlValue) -> (r: bool)
    ensures
        r == field_value_edits(p, *v) is Some,
        r ==> final(out)@ == old(out)@ + field_value_edits(p, *v)->0,
{
    proof {
        reveal_strlit("_read");
        reveal_strlit("_write");
    }
    match v {
        YamlValue::Hash(h) => {
            let r = get_key(h, "_read");
            let w = get_key(h, "_write");
            if r.is_none() && w.is_none() {
                out.push(FieldEdit::Enum(p, h, Usage::ReadWrite));
                assert(out@ =~= old(out)@ + seq![FieldEdit::Enum(p, h, Usage::ReadWrite)]);
                return true;
            }
            match r {
                Some(YamlValue::Hash(x)) => {
                    out.push(FieldEdit::Enum(p, x, Usage::Read));
                },
                Some(_) => {
                    return false;
                },
                None => {},
            }
            let ghost mid = out@;
            match w {
                Some(YamlValue::Hash(x)) => {
                    out.push(FieldEdit::Enum(p, x, Usage::Write));
                },
                Some(_) => {
                    return false;
                },
                None => {},
            }
            assert(out@ =~= old(out)@ + field_value_edits(p, *v)->0);
            true
        },
        YamlValue::Array(a) => {
            if a.len() == 2 {
                out.push(FieldEdit::Range(p, a));
                assert(out@ =~= old(out)@ + seq![FieldEdit::Range(p, a)]);
            } else {
                assert(out@ =~= old(out)@ + Seq::<FieldEdit>::empty());
            }
            true
        },
        _ => {
            assert(out@ =~= old(out)@ + Seq::<FieldEdit>::empty());
            true
        },
    }
}

/// Appends the edits of the entries that name fields (see
/// [`field_entries`]); `false` where they cannot be read.
fn push_field_entries<'a>(out: &mut Vec<FieldEdit<'a>>, h: &'a Vec<(YamlValue, YamlValue)>) -> (r: bool)
    ensures
        r == field_entries(h@) is Some,
        r ==> final(out)@ == old(out)@ + field_entries(h@)->0,
{
    let ghost start = out@;
    let mut i: usize = 0;
    while i < h.len()
        invariant
            i <= h@.len(),
            field_entries::<'a>(h@.take(i as int)) is Some,
            out@ == start + field_entries(h@.take(i as int))->0,
        decreases h@.len() - i,
    {
        let ghost t = h@.take(i + 1);
        assert(t.drop_last() =~= h@.take(i as int));
        let (key, val) = &h[i];
        match key {
            YamlValue::String(x) => {
                let c = crate::text::chars_of(x.as_str());
                if !(c.len() > 0 && c[0] == '_') {
                    let ghost before = out@;
                    if !push_field_value(out, x, val) {
                        proof {
                            lemma_field_entries_fail(h@, i + 1);
                        }
                        return false;
                    }
                    assert(out@ =~= start + field_entries::<'a>(h@.take(i + 1))->0);
                } else {
                    assert(out@ =~= start + field_entries::<'a>(h@.take(i + 1))->0);
                }
            },
            _ => {
                proof {
                    lemma_field_entries_fail(h@, i + 1);
                }
                return false;
            },
        }
        i += 1;
    }
    assert(h@.take(h@.len() as int) =~= h@);
    true
}

/// The edits of the later parts of a register mapping: prefixes and
/// suffixes stripped, the fields themselves (when `update`), arrays.
#[verifier::opaque]
pub open spec fn later_edits<'a>(h: Seq<(YamlValue, YamlValue)>, update: bool) -> Option<Seq<FieldEdit<'a>>> {
    then(
        Some(
            text_edits(get_key_spec(h, "_strip"@), TextKind::StripStart) + text_edits(
                get_key_spec(h, "_strip_end"@),
                TextKind::StripEnd,
            ),
        ),
        then(
            if update {
                field_entries(h)
            } else {
                Some(Seq::empty())
            },
            map_edits(get_key_spec(h, "_array"@), PairKind::Array),
        ),
    )
}

/// Appends the edits of the later parts of a register mapping (see
/// [`later_edits`]); `false` where they cannot be read.
fn push_later<'a>(out: &mut Vec<FieldEdit<'a>>, h: &'a Vec<(YamlValue, YamlValue)>, update: bool) -> (r: bool)
    ensures
        r == later_edits(h@, update) is Some,
        r ==> final(out)@ == old(out)@ + later_edits(h@, update)->0,
{
    reveal(later_edits);
    proof {
        reveal_strlit("_strip");
        reveal_strlit("_strip_end");
        reveal_strlit("_array");
    }
    let ghost p0 = out@;
    push_texts(out, get_key(h, "_strip"), TextKind::StripStart);
    push_texts(out, get_key(h, "_strip_end"), TextKind::StripEnd);
    let ghost p1 = out@;
    if update {
        if !push_field_entries(out, h) {
            return false;
        }
    }
    let ghost p2 = out@;
    if !push_pairs(out, get_key(h, "_array"), PairKind::Array) {
        return false;
    }
    proof {
        let a = p1.skip(p0.len() as int);
        let b = p2.skip(p1.len() as int);
        let c = out@.skip(p2.len() as int);
        assert(p1 =~= p0 + a);
        assert(p2 =~= p1 + b);
        assert(out@ =~= p2 + c);
        assert(out@ =~= p0 + (a + (b + c)));
    }
    true
}

/// Reads the edits that the mapping `h` of a register asks (see
/// [`field_edits`]); `None` where a part has not the expected kind.
#[verifier::rlimit(60)]
pub fn field_edits_of<'a>(h: &'a Vec<(YamlValue, YamlValue)>, update: bool) -> (r: Option<Vec<FieldEdit<'a>>>)
    ensures
        match field_edits(h@, update) {
            Some(es) => r matches Some(v) && v@ == es,
            None => r is None,
        },
{
    proof {
        reveal_strlit("_delete");
        reveal_strlit("_clear");
        reveal_strlit("_modify");
        reveal_strlit("_add");
        reveal_strlit("_merge");
        reveal_strlit("_split");
    }
    let mut out: Vec<FieldEdit<'a>> = Vec::new();
    push_texts(&mut out, get_key(h, "_delete"), TextKind::Delete);
    push_texts(&mut out, get_key(h, "_clear"), TextKind::Clear);
    let ghost p0 = out@;
    if !push_pairs(&mut out, get_key(h, "_modify"), PairKind::Modify) {
        return None;
    }
    let ghost p1 = out@;
    if !push_pairs(&mut out, get_key(h, "_add"), PairKind::Add) {
        return None;
    }
    let ghost p2 = out@;
    if !push_merges(&mut out, get_key(h, "_merge"), false) {
        return None;
    }
    let ghost p3 = out@;
    if !push_merges(&mut out, get_key(h, "_split"), true) {
        return None;
    }
    let ghost p4 = out@;
    if !push_later(&mut out, h, update) {
        return None;
    }
    proof {
        let a = p0;
        let b = p1.skip(p0.len() as int);
        let c = p2.skip(p1.len() as int);
        let d = p3.skip(p2.len() as int);
        let e = p4.skip(p3.len() as int);
        let k = out@.skip(p4.len() as int);
        assert(p1 =~= a + b);
        assert(p2 =~= p1 + c);
        assert(p3 =~= p2 + d);
        assert(p4 =~= p3 + e);
        assert(out@ =~= p4 + k);
        assert(out@ =~= a + (b + (c + (d + (e + k)))));
    }
    Some(out)
}

// ---------------------------------------------------------------------------
// Processing a register
// ---------------------------------------------------------------------------

/// Work through a register, handling all fields: the edits that `rmod`
/// asks (see [`field_edits`]) are applied in turn. Fails when `rmod` cannot
/// be read, or at the first edit that cannot be applied; the register is
/// then left in an unspecified state.
pub fn process(reg: &mut RegisterInfo, rmod: &Vec<(YamlValue, YamlValue)>, pname: &str, update_fields: bool) -> (r: Result<
    (),
    PatchError,
>)
    ensures
        match field_edits(rmod@, update_fields) {
            None => r is Err,
            Some(es) => edits_applied(*old(reg), es, *final(reg), r is Ok),
        },
{
    let es = match field_edits_of(rmod, update_fields) {
        Some(es) => es,
        None => return Err(PatchError::Value(owned(reg.name.as_str()))),
    };
    apply_edits(reg, pname, &es)
}

/// Work through a field, handling either an enum or a range (see
/// [`field_value_edits`]).
pub fn process_field(reg: &mut RegisterInfo, pname: &str, fspec: &String, fmod: &YamlValue) -> (r: Result<(), PatchError>)
    ensures
        match field_value_edits(fspec, *fmod) {
            None => r is Err,
            Some(es) => edits_applied(*old(reg), es, *final(reg), r is Ok),
        },
{
    let mut es: Vec<FieldEdit> = Vec::new();
    if !push_field_value(&mut es, fspec, fmod) {
        return Err(PatchError::Value(owned(fspec.as_str())));
    }
    assert(es@ =~= field_value_edits(fspec, *fmod)->0);
    apply_edits(reg, pname, &es)
}

} // verus!
