//! Giving the fields of a register enumerated values from a patch file.
use vstd::prelude::*;

use crate::enumeratedvalues::EnumeratedValuesModel;
use crate::field::{evs_model, FieldInfoModel};
use crate::patch::error::PatchError;
use crate::patch::make::{
    check_ev_entries, ev_entries_ok, increasing, is_ascii_digit, is_value_entry, key_text, make_derived_enumerated_values,
    make_ev_array, make_ev_name, usage_suffix, values_of, VAL_LVL,
};
use crate::patch::names::{checked_matchname, matchname, matchname_spec};
use crate::patch::register::{
    each_field, field_matches, field_names_testable, qualified, same_kind, scan_fields, some_field_matches,
};
use crate::patch::yaml::{get_hash, get_key_spec, get_str, YamlValue};
use crate::register::fields_of;
use crate::text::{owned, str_eq};
use crate::{EnumeratedValues, Field, FieldInfo, RegisterInfo, Usage};

verus! {

// ---------------------------------------------------------------------------
// Setting the enumerated values of one field
// ---------------------------------------------------------------------------

/// Enumerated values of `usage` can be set on a field that has `evs`:
/// read-write ones where it has none or when replacing; read or write ones
/// where it has none, one of another usage, or (when replacing) one of that
/// usage, or two when replacing.
pub open spec fn set_enum_ok(evs: Seq<EnumeratedValuesModel>, usage: Usage, replace: bool) -> bool {
    if usage == Usage::ReadWrite {
        evs.len() == 0 || replace
    } else if evs.len() == 0 {
        true
    } else if evs.len() == 1 {
        (evs[0].usage == Some(usage) || evs[0].usage == Some(Usage::ReadWrite)) ==> replace
    } else if evs.len() == 2 {
        replace
    } else {
        false
    }
}

/// `new` holds the enumerated values of a field that had `old` once those
/// that `is_val` describes are set for `usage`: read-write ones replace all;
/// others are added, or replace those of the same usage.
pub open spec fn enums_after(
    old: Seq<EnumeratedValuesModel>,
    new: Seq<EnumeratedValuesModel>,
    is_val: spec_fn(EnumeratedValuesModel) -> bool,
    usage: Usage,
) -> bool {
    if usage == Usage::ReadWrite || old.len() == 0 {
        new.len() == 1 && is_val(new[0])
    } else if old.len() == 1 {
        if old[0].usage == Some(usage) || old[0].usage == Some(Usage::ReadWrite) {
            new.len() == 1 && is_val(new[0])
        } else {
            new.len() == 2 && new[0] == old[0] && is_val(new[1])
        }
    } else {
        &&& new.len() == 2
        &&& forall|k: int|
            0 <= k < 2 ==> if old[k].usage == Some(usage) {
                is_val(#[trigger] new[k])
            } else {
                new[k] == old[k]
            }
    }
}

/// Sets the enumerated values `val` of `usage` on `f` (see
/// [`set_enum_ok`] and [`enums_after`]).
fn set_enum(f: &mut FieldInfo, val: EnumeratedValues, usage: Usage, replace: bool) -> (r: Result<(), PatchError>)
    ensures
        r is Ok <==> set_enum_ok(old(f)@.enumerated_values, usage, replace),
        r is Err ==> *final(f) == *old(f),
        r is Ok ==> {
            &&& *final(f) == (FieldInfo { enumerated_values: final(f).enumerated_values, ..*old(f) })
            &&& enums_after(
                old(f)@.enumerated_values,
                final(f)@.enumerated_values,
                |e: EnumeratedValuesModel| e == val@,
                usage,
            )
        },
{
    let n = f.enumerated_values.len();
    let ghost old_evs = f@.enumerated_values;
    if usage == Usage::ReadWrite {
        if n == 0 || replace {
            let mut v: Vec<EnumeratedValues> = Vec::new();
            v.push(val);
            f.enumerated_values = v;
            assert(f@.enumerated_values =~= seq![val@]);
            return Ok(());
        } else {
            return Err(PatchError::Enumerated(owned(f.name.as_str())));
        }
    }
    if n == 0 {
        f.enumerated_values.push(val);
        assert(f@.enumerated_values =~= seq![val@]);
        Ok(())
    } else if n == 1 {
        let same = match f.enumerated_values[0].usage {
            Some(u) => u == usage || u == Usage::ReadWrite,
            None => false,
        };
        if same {
            if replace {
                f.enumerated_values.set(0, val);
                assert(f@.enumerated_values =~= seq![val@]);
                Ok(())
            } else {
                Err(PatchError::Enumerated(owned(f.name.as_str())))
            }
        } else {
            f.enumerated_values.push(val);
            assert(f@.enumerated_values =~= old_evs.push(val@));
            Ok(())
        }
    } else if n == 2 {
        if replace {
            let ghost v0 = val@;
            let first = match f.enumerated_values[0].usage {
                Some(u) => u == usage,
                None => false,
            };
            let second = match f.enumerated_values[1].usage {
                Some(u) => u == usage,
                None => false,
            };
            if first {
                f.enumerated_values.set(0, val.clone());
            }
            if second {
                f.enumerated_values.set(1, val);
            }
            assert(f@.enumerated_values.len() == 2);
            assert(f@.enumerated_values[0] == if first { v0 } else { old_evs[0] });
            assert(f@.enumerated_values[1] == if second { v0 } else { old_evs[1] });
            Ok(())
        } else {
            Err(PatchError::Enumerated(owned(f.name.as_str())))
        }
    } else {
        Err(PatchError::Enumerated(owned(f.name.as_str())))
    }
}

// ---------------------------------------------------------------------------
// Enumerations of a register
// ---------------------------------------------------------------------------

/// Enumeration `e` is named `d`.
pub open spec fn enum_named(e: EnumeratedValuesModel, d: Seq<char>) -> bool {
    e.name matches Some(n) && n@ == d
}

/// How many enumerations of `es` are named `d`.
pub open spec fn named_in_list(es: Seq<EnumeratedValuesModel>, d: Seq<char>) -> nat
    decreases es.len(),
{
    if es.len() == 0 {
        0
    } else {
        named_in_list(es.drop_last(), d) + if enum_named(es.last(), d) {
            1nat
        } else {
            0nat
        }
    }
}

/// How many enumerations of the fields of `s` are named `d`.
pub open spec fn named_total(s: Seq<Field>, d: Seq<char>) -> nat
    decreases s.len(),
{
    if s.len() == 0 {
        0
    } else {
        named_total(s.drop_last(), d) + named_in_list(s.last().info_spec()@.enumerated_values, d)
    }
}

/// The usage of the first enumeration of `es` named `d`, if there is one.
pub open spec fn first_named_in_list(es: Seq<EnumeratedValuesModel>, d: Seq<char>) -> Option<Option<Usage>>
    decreases es.len(),
{
    if es.len() == 0 {
        None
    } else {
        match first_named_in_list(es.drop_last(), d) {
            Some(u) => Some(u),
            None => if enum_named(es.last(), d) {
                Some(es.last().usage_spec())
            } else {
                None
            },
        }
    }
}

/// The usage of the first enumeration of the fields of `s` named `d`, if
/// there is one.
pub open spec fn first_named_usage(s: Seq<Field>, d: Seq<char>) -> Option<Option<Usage>>
    decreases s.len(),
{
    if s.len() == 0 {
        None
    } else {
        match first_named_usage(s.drop_last(), d) {
            Some(u) => Some(u),
            None => first_named_in_list(s.last().info_spec()@.enumerated_values, d),
        }
    }
}

/// The first of the fields of `s` that `spec` matches with the lowest
/// offset.
pub open spec fn min_match(s: Seq<Field>, spec: Seq<char>) -> Option<Field>
    decreases s.len(),
{
    if s.len() == 0 {
        None
    } else {
        let f = s.last();
        match min_match(s.drop_last(), spec) {
            None => if field_matches(f, spec) {
                Some(f)
            } else {
                None
            },
            Some(m) => if field_matches(f, spec) && f.info_spec().bit_range.offset
                < m.info_spec().bit_range.offset {
                Some(f)
            } else {
                Some(m)
            },
        }
    }
}

/// `e` derives from `d` and holds nothing else.
pub open spec fn derived_val(e: EnumeratedValuesModel, d: Seq<char>) -> bool {
    &&& e.name is None
    &&& e.usage is None
    &&& e.derived_from matches Some(x) && x@ == d
    &&& e.values.len() == 0
}

/// `e` is the enumeration named `name` of `usage` that the entries `h`
/// describe.
pub open spec fn built_val(e: EnumeratedValuesModel, h: Seq<(YamlValue, YamlValue)>, name: Seq<char>, usage: Usage) -> bool {
    &&& e.name matches Some(n) && n@ == name
    &&& e.usage == Some(usage)
    &&& e.derived_from is None
    &&& increasing(e.values)
    &&& values_of(h, h.len() as int, e.values)
}

/// `g` is `f` with other enumerations, and nothing else changed.
pub open spec fn enums_changed(f: Field, g: Field) -> bool {
    &&& same_kind(f, g)
    &&& g.info_spec() == (FieldInfo { enumerated_values: g.info_spec().enumerated_values, ..f.info_spec() })
}

/// The enumerations of `f`.
pub open spec fn evs_of(f: Field) -> Seq<EnumeratedValuesModel> {
    f.info_spec()@.enumerated_values
}

/// The mapping that gives the enumeration: the one under
/// `_replace_enum`, which then replaces existing ones, else `fmod`.
pub open spec fn enum_source(fmod: Seq<(YamlValue, YamlValue)>) -> (Seq<(YamlValue, YamlValue)>, bool) {
    match get_key_spec(fmod, "_replace_enum"@) {
        Some(YamlValue::Hash(h)) => (h@, true),
        _ => (fmod, false),
    }
}

/// Sets `val` for `usage` on field `f`.
fn set_field_enum(f: &mut Field, val: EnumeratedValues, usage: Usage, replace: bool) -> (r: Result<(), PatchError>)
    ensures
        r is Ok <==> set_enum_ok(evs_of(*old(f)), usage, replace),
        r is Ok ==> enums_changed(*old(f), *final(f)) && enums_after(
            evs_of(*old(f)),
            evs_of(*final(f)),
            |e: EnumeratedValuesModel| e == val@,
            usage,
        ),
{
    let info = f.info_mut();
    set_enum(info, val, usage, replace)
}

/// Counts the enumerations of `fs` named `d` (up to two), with the usage of
/// the first.
fn count_named(fs: &[Field], d: &str) -> (r: (usize, Option<Option<Usage>>))
    ensures
        r.0 == 0 <==> named_total(fs@, d@) == 0,
        r.0 == 1 <==> named_total(fs@, d@) == 1,
        r.1 == first_named_usage(fs@, d@),
{
    let mut count: usize = 0;
    let mut first: Option<Option<Usage>> = None;
    let mut i: usize = 0;
    while i < fs.len()
        invariant
            i <= fs@.len(),
            count <= 2,
            count < 2 ==> count == named_total(fs@.take(i as int), d@),
            count == 2 ==> named_total(fs@.take(i as int), d@) >= 2,
            first == first_named_usage(fs@.take(i as int), d@),
        decreases fs@.len() - i,
    {
        let ghost t = fs@.take(i + 1);
        assert(t.drop_last() =~= fs@.take(i as int));
        assert(t.last() == fs@[i as int]);
        let evs = &fs[i].info().enumerated_values;
        let ghost es = evs_model(evs@);
        let ghost c0 = named_total(fs@.take(i as int), d@);
        let mut j: usize = 0;
        let mut inner: Option<Option<Usage>> = None;
        while j < evs.len()
            invariant
                j <= evs@.len(),
                es == evs_model(evs@),
                count <= 2,
                count < 2 ==> count == c0 + named_in_list(es.take(j as int), d@),
                count == 2 ==> c0 + named_in_list(es.take(j as int), d@) >= 2,
                inner == first_named_in_list(es.take(j as int), d@),
            decreases evs@.len() - j,
        {
            let ghost u = es.take(j + 1);
            assert(u.drop_last() =~= es.take(j as int));
            assert(u.last() == evs@[j as int]@);
            let named = match &evs[j].name {
                Some(n) => str_eq(n.as_str(), d),
                None => false,
            };
            if named {
                if count < 2 {
                    count += 1;
                }
                if inner.is_none() {
                    inner = Some(evs[j].usage());
                }
            }
            j += 1;
        }
        assert(es.take(evs@.len() as int) =~= es);
        if first.is_none() {
            first = inner;
        }
        i += 1;
    }
    assert(fs@.take(fs@.len() as int) =~= fs@);
    (count, first)
}

/// The position of the first of the fields of `fs` that `fspec` matches
/// with the lowest offset (see [`min_match`]).
fn find_min_match(fs: &[Field], fspec: &str) -> (r: usize)
    requires
        field_names_testable(fs@, fspec@),
        some_field_matches(fs@, fspec@),
    ensures
        r < fs@.len(),
        min_match(fs@, fspec@) == Some(fs@[r as int]),
{
    let mut best: Option<usize> = None;
    let mut i: usize = 0;
    while i < fs.len()
        invariant
            i <= fs@.len(),
            field_names_testable(fs@, fspec@),
            match best {
                None => min_match(fs@.take(i as int), fspec@) is None,
                Some(b) => b < i && min_match(fs@.take(i as int), fspec@) == Some(fs@[b as int]),
            },
            best is None ==> forall|j: int| 0 <= j < i ==> !field_matches(#[trigger] fs@[j], fspec@),
        decreases fs@.len() - i,
    {
        let ghost t = fs@.take(i + 1);
        assert(t.drop_last() =~= fs@.take(i as int));
        assert(t.last() == fs@[i as int]);
        assert(matchname_spec(fs@[i as int].info_spec().name@, fspec@) is Some);
        if matchname(fs[i].info().name.as_str(), fspec) {
            match best {
                None => {
                    best = Some(i);
                },
                Some(b) => {
                    if fs[i].info().bit_range.offset < fs[b].info().bit_range.offset {
                        best = Some(i);
                    }
                },
            }
        }
        i += 1;
    }
    assert(fs@.take(fs@.len() as int) =~= fs@);
    match best {
        Some(b) => b,
        None => {
            proof {
                let k = choose|k: int| 0 <= k < fs@.len() && field_matches(#[trigger] fs@[k], fspec@);
                assert(!field_matches(fs@[k], fspec@));
            }
            0
        },
    }
}

/// What holds of an enumeration that one predicate describes holds of it
/// under a weaker one.
proof fn lemma_enums_after_weaken(
    o: Seq<EnumeratedValuesModel>,
    n: Seq<EnumeratedValuesModel>,
    p: spec_fn(EnumeratedValuesModel) -> bool,
    q: spec_fn(EnumeratedValuesModel) -> bool,
    u: Usage,
)
    requires
        enums_after(o, n, p, u),
        forall|e: EnumeratedValuesModel| #[trigger] p(e) ==> q(e),
    ensures
        enums_after(o, n, q, u),
{
    if !(u == Usage::ReadWrite || o.len() == 0) && o.len() != 1 {
        assert forall|k: int| 0 <= k < 2 implies if o[k].usage == Some(u) {
            q(#[trigger] n[k])
        } else {
            n[k] == o[k]
        } by {
            if o[k].usage == Some(u) {
                assert(p(n[k]));
            }
        }
    }
}

/// `g` is `f` given enumerations derived from `d` where `fspec` matches it.
pub open spec fn derived_enum_set(f: Field, g: Field, fspec: Seq<char>, d: Seq<char>, usage: Usage) -> bool {
    if field_matches(f, fspec) {
        enums_changed(f, g) && enums_after(
            evs_of(f),
            evs_of(g),
            |e: EnumeratedValuesModel| derived_val(e, d),
            usage,
        )
    } else {
        g == f
    }
}

/// `g` is `f` given enumerations where `fspec` matches it: those that `h`
/// describes, named `name`, for a field at the offset `min`; else
/// enumerations derived from them.
pub open spec fn enum_set(
    f: Field,
    g: Field,
    fspec: Seq<char>,
    h: Seq<(YamlValue, YamlValue)>,
    name: Seq<char>,
    min: u32,
    usage: Usage,
) -> bool {
    if field_matches(f, fspec) {
        enums_changed(f, g) && enums_after(
            evs_of(f),
            evs_of(g),
            |e: EnumeratedValuesModel|
                if f.info_spec().bit_range.offset == min {
                    built_val(e, h, name, usage)
                } else {
                    derived_val(e, name)
                },
            usage,
        )
    } else {
        g == f
    }
}

/// Whether the enumerations can be set on every field that `fspec`
/// matches: with replacement at `min` when `replace`, always elsewhere.
pub open spec fn enums_settable(s: Seq<Field>, fspec: Seq<char>, usage: Usage, min: Option<u32>, replace: bool) -> bool {
    forall|i: int|
        0 <= i < s.len() && field_matches(#[trigger] s[i], fspec) ==> set_enum_ok(
            evs_of(s[i]),
            usage,
            if min == Some(s[i].info_spec().bit_range.offset) {
                replace
            } else {
                true
            },
        )
}

/// Whether the enumerations that `fmod` describes can be given to the
/// fields of `reg` that `fspec` matches (see [`process_field_enum`]).
pub open spec fn enums_ok(reg: RegisterInfo, fspec: Seq<char>, fmod: Seq<(YamlValue, YamlValue)>, usage: Usage) -> bool {
    let fm = enum_source(fmod).0;
    let s = fields_of(reg.fields);
    match key_text(fm, "_derivedFrom"@) {
        Some(d) => reg.fields is Some && field_names_testable(s, fspec) && named_total(s, d) == 1
            && first_named_usage(s, d) == Some(Some(usage)) && (forall|i: int|
            0 <= i < s.len() && field_matches(#[trigger] s[i], fspec) ==> s[i].info_spec().name@ != d)
            && enums_settable(s, fspec, usage, None, true),
        None => {
            let m = min_match(s, fspec)->0;
            let name = m.info_spec().name@;
            field_names_testable(s, fspec) && some_field_matches(s, fspec) && name.len() > 0 && !is_ascii_digit(name[0])
                && ev_entries_ok(fm) && (exists|i: int| is_value_entry(fm, i)) && enums_settable(
                s,
                fspec,
                usage,
                Some(m.info_spec().bit_range.offset),
                enum_source(fmod).1,
            )
        },
    }
}

/// `new` is `old` once the fields that `fspec` matches have the
/// enumerations that `fmod` describes (see [`process_field_enum`]).
pub open spec fn enums_done(
    old: RegisterInfo,
    new: RegisterInfo,
    fspec: Seq<char>,
    fmod: Seq<(YamlValue, YamlValue)>,
    usage: Usage,
) -> bool {
    let fm = enum_source(fmod).0;
    let s = fields_of(old.fields);
    match key_text(fm, "_derivedFrom"@) {
        Some(d) => each_field(old, new, |f: Field, g: Field| derived_enum_set(f, g, fspec, d, usage)),
        None => {
            let m = min_match(s, fspec)->0;
            each_field(
                old,
                new,
                |f: Field, g: Field|
                    enum_set(
                        f,
                        g,
                        fspec,
                        fm,
                        m.info_spec().name@ + usage_suffix(usage),
                        m.info_spec().bit_range.offset,
                        usage,
                    ),
            )
        },
    }
}

/// Add an enumeratedValues given by field to all fspec in rtag. The
/// mapping (see [`enum_source`]) either derives the enumerations from
/// another one of the register, or describes them: the first of the matched
/// fields with the lowest offset names them after itself (see
/// [`make_ev_name`]) and gets them, the other matched fields get
/// enumerations derived from them (see [`enum_set`]). Fails when a name
/// cannot be tested, the enumeration to derive from is not found once with
/// that usage or a matched field bears its name, no field matches, the name
/// of the first field is empty or starts with a digit, the entries cannot be
/// read or describe no value, or a field has enumerations of that usage
/// already; the register is then left in an unspecified state.
pub fn process_field_enum(reg: &mut RegisterInfo, pname: &str, fspec: &str, fmod: &Vec<(YamlValue, YamlValue)>, usage: Usage) -> (r: Result<
    (),
    PatchError,
>)
    ensures
        r is Ok <==> enums_ok(*old(reg), fspec@, fmod@, usage),
        r is Ok ==> enums_done(*old(reg), *final(reg), fspec@, fmod@, usage),
{
    proof {
        reveal_strlit("_replace_enum");
        reveal_strlit("_derivedFrom");
    }
    let (fm, replace) = match get_hash(fmod, "_replace_enum") {
        Some(h) => (h, true),
        None => (fmod, false),
    };
    let ghost s = fields_of(reg.fields);
    match get_str(fm, "_derivedFrom") {
        Some(d) => {
            if reg.fields.is_none() {
                return Err(PatchError::NotFound(owned(d)));
            }
            let (count, first) = count_named(reg.fields(), d);
            if count == 0 {
                return Err(PatchError::NotFound(qualified(pname, d)));
            }
            if count != 1 {
                return Err(PatchError::TooMany(qualified(pname, d)));
            }
            let same = match first {
                Some(Some(u)) => u == usage,
                _ => false,
            };
            if !same {
                return Err(PatchError::Value(owned(d)));
            }
            match scan_fields(reg.fields(), fspec) {
                Err(e) => return Err(e),
                Ok(_) => {},
            }
            let evs = make_derived_enumerated_values(d);
            let ghost dd = d@;
            let fields = match &mut reg.fields {
                Some(v) => v,
                None => return Ok(()),
            };
            let n = fields.len();
            let mut i: usize = 0;
            while i < n
                invariant
                    n == s.len(),
                    n == fields@.len(),
                    i <= n,
                    field_names_testable(s, fspec@),
                    s == fields_of(old(reg).fields),
                    fm@ == enum_source(fmod@).0,
                    key_text(fm@, "_derivedFrom"@) == Some(dd),
                    dd == d@,
                    derived_val(evs@, dd),
                    forall|j: int| i <= j < n ==> fields@[j] == s[j],
                    forall|j: int| 0 <= j < i ==> derived_enum_set(s[j], #[trigger] fields@[j], fspec@, dd, usage),
                    forall|j: int|
                        0 <= j < i && field_matches(#[trigger] s[j], fspec@) ==> s[j].info_spec().name@ != dd
                            && set_enum_ok(evs_of(s[j]), usage, true),
                decreases n - i,
            {
                assert(matchname_spec(s[i as int].info_spec().name@, fspec@) is Some);
                let f = &mut fields[i];
                if matchname(f.info().name.as_str(), fspec) {
                    if str_eq(f.info().name.as_str(), d) {
                        assert(field_matches(s[i as int], fspec@) && s[i as int].info_spec().name@ == dd);
                        return Err(PatchError::Value(owned(d)));
                    }
                    let val = evs.clone();
                    let ghost v = val@;
                    match set_field_enum(f, val, usage, true) {
                        Err(e) => return Err(e),
                        Ok(()) => {},
                    }
                    proof {
                        lemma_enums_after_weaken(
                            evs_of(s[i as int]),
                            evs_of(fields@[i as int]),
                            |e: EnumeratedValuesModel| e == v,
                            |e: EnumeratedValuesModel| derived_val(e, dd),
                            usage,
                        );
                    }
                }
                i += 1;
            }
            Ok(())
        },
        None => {
            let found = match scan_fields(reg.fields(), fspec) {
                Err(e) => return Err(e),
                Ok(b) => b,
            };
            if !found {
                return Err(PatchError::NotFound(qualified(pname, fspec)));
            }
            let k = find_min_match(reg.fields(), fspec);
            let m = reg.fields()[k].info();
            let min = m.bit_range.offset;
            let mchars = crate::text::chars_of(m.name.as_str());
            if mchars.len() == 0 || ('0' <= mchars[0] && mchars[0] <= '9') {
                return Err(PatchError::Value(owned(m.name.as_str())));
            }
            let evname = make_ev_name(m.name.as_str(), usage);
            if !check_ev_entries(fm) {
                return Err(PatchError::Value(qualified(pname, fspec)));
            }
            let b = make_ev_array(fm).name(Some(evname.clone())).usage(Some(usage));
            let built = match b.build(VAL_LVL) {
                Ok(e) => e,
                Err(e) => {
                    proof {
                        if exists|i: int| is_value_entry(fm@, i) {
                            let i = choose|i: int| is_value_entry(fm@, i);
                            assert(crate::patch::make::covered(fm@, i, b.values->0@));
                        }
                    }
                    return Err(PatchError::Invalid(e));
                },
            };
            proof {
                if built@.values.len() > 0 {
                    assert(crate::patch::make::from_entries(fm@, fm@.len() as int, built@.values[0]));
                }
            }
            let derived = make_derived_enumerated_values(evname.as_str());
            let ghost nm = evname@;
            let fields = match &mut reg.fields {
                Some(v) => v,
                None => return Ok(()),
            };
            let n = fields.len();
            let mut i: usize = 0;
            while i < n
                invariant
                    n == s.len(),
                    n == fields@.len(),
                    i <= n,
                    field_names_testable(s, fspec@),
                    s == fields_of(old(reg).fields),
                    fm@ == enum_source(fmod@).0,
                    replace == enum_source(fmod@).1,
                    key_text(fm@, "_derivedFrom"@) is None,
                    min == min_match(s, fspec@)->0.info_spec().bit_range.offset,
                    nm == min_match(s, fspec@)->0.info_spec().name@ + usage_suffix(usage),
                    derived_val(derived@, nm),
                    built_val(built@, fm@, nm, usage),
                    forall|j: int| i <= j < n ==> fields@[j] == s[j],
                    forall|j: int| 0 <= j < i ==> enum_set(s[j], #[trigger] fields@[j], fspec@, fm@, nm, min, usage),
                    forall|j: int|
                        0 <= j < i && field_matches(#[trigger] s[j], fspec@) ==> set_enum_ok(
                            evs_of(s[j]),
                            usage,
                            if min == s[j].info_spec().bit_range.offset {
                                replace
                            } else {
                                true
                            },
                        ),
                decreases n - i,
            {
                assert(matchname_spec(s[i as int].info_spec().name@, fspec@) is Some);
                let f = &mut fields[i];
                if matchname(f.info().name.as_str(), fspec) {
                    let at_min = f.info().bit_range.offset == min;
                    let val = if at_min {
                        built.clone()
                    } else {
                        derived.clone()
                    };
                    let ghost v = val@;
                    match set_field_enum(f, val, usage, if at_min { replace } else { true }) {
                        Err(e) => return Err(e),
                        Ok(()) => {},
                    }
                    proof {
                        let fi = s[i as int];
                        lemma_enums_after_weaken(
                            evs_of(fi),
                            evs_of(fields@[i as int]),
                            |e: EnumeratedValuesModel| e == v,
                            |e: EnumeratedValuesModel|
                                if fi.info_spec().bit_range.offset == min {
                                    built_val(e, fm@, nm, usage)
                                } else {
                                    derived_val(e, nm)
                                },
                            usage,
                        );
                    }
                }
                i += 1;
            }
            Ok(())
        },
    }
}

} // verus!
