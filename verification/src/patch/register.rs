//! The edits that a patch file makes to the fields of a register.
use vstd::prelude::*;

use crate::field::{bit_set, clone_opt, FieldInfoModel};
use crate::patch::error::PatchError;
use crate::patch::names::{
    end_stripped, matchname, matchname_spec, start_stripped, strip_end_fails, strip_name_end, strip_name_start,
    strip_start_fails,
};
use crate::register::fields_of;
use crate::text::{
    concat, decimal, longest_common_prefix, lcp_upto, owned, replace_spec, replace_str, splits_at, str_eq, strings_view,
    u32_to_string, utf8,
};
use crate::patch::yaml::{model, number_spec, parse_i64, YamlValue};
use crate::patch::names::checked_matchname;
use crate::patch::make::{
    field_range_of, key_access, key_number, key_text, make_field, new_field_model, nonempty_chars, VAL_LVL,
};
use crate::patch::yaml::{get_key, get_key_spec, get_str};
use crate::field::opt_chars;
use crate::BitRange;
use crate::{outcome, Field, FieldInfo, RegisterInfo, SvdError, WriteConstraint, WriteConstraintRange};

verus! {

/// The widths and offsets of the fields of `fields` all describe bits of a
/// 64-bit register.
pub open spec fn fields_in_64_bits(fields: Seq<Field>) -> bool {
    forall|i: int|
        0 <= i < fields.len() ==> 1 <= (#[trigger] fields[i]).info_spec().bit_range.width <= 64
            && fields[i].info_spec().bit_range.offset < 64
}

/// Bit `b` lies within one of `fields`.
pub open spec fn bit_in_fields(fields: Seq<Field>, b: u64) -> bool {
    exists|i: int|
        0 <= i < fields.len() && (#[trigger] fields[i]).info_spec().bit_range.offset <= b < fields[i].info_spec().bit_range.offset
            + fields[i].info_spec().bit_range.width
}

/// Calculate filling of register
pub trait RegisterInfoExt {
    /// Every field lies within the 64 bits that the mask can hold.
    spec fn fields_fit(&self) -> bool;

    /// Calculate filling of register
    fn get_bitmask(&self) -> u64
        requires
            self.fields_fit(),
    ;
}

impl RegisterInfoExt for RegisterInfo {
    open spec fn fields_fit(&self) -> bool {
        fields_in_64_bits(fields_of(self.fields))
    }

    /// The bits that the fields cover: bit `b` is set exactly when it lies
    /// within one of the fields (the pattern field of an array stands for
    /// the array).
    fn get_bitmask(&self) -> (r: u64)
        ensures
            forall|b: u64| b < 64 ==> (bit_set(r, b) <==> bit_in_fields(fields_of(self.fields), b)),
    {
        let fs = self.fields();
        let mut mask: u64 = 0;
        let mut i: usize = 0;
        proof {
            assert(forall|b: u64| b < 64 ==> ((#[trigger] (0u64 >> b)) & 1u64) != 1u64) by (bit_vector);
        }
        while i < fs.len()
            invariant
                fs@ == fields_of(self.fields),
                fields_in_64_bits(fs@),
                i <= fs@.len(),
                forall|b: u64| b < 64 ==> (bit_set(mask, b) <==> bit_in_fields(fs@.take(i as int), b)),
            decreases fs@.len() - i,
        {
            let f = fs[i].info();
            let m = f.bitmask();
            let next = mask | m;
            proof {
                crate::field::lemma_or_bits(mask, m);
                assert(fs@.take(i + 1)[i as int] == fs@[i as int]);
                let ghost t = fs@.take(i + 1);
                let ghost u = fs@.take(i as int);
                assert(t[i as int] == fs@[i as int]);
                assert forall|b: u64| b < 64 implies (bit_set(next, b) <==> bit_in_fields(t, b)) by {
                    assert(bit_set(next, b) == (bit_set(mask, b) || bit_set(m, b)));
                    assert(bit_set(mask, b) == bit_in_fields(u, b));
                    assert(bit_set(m, b) == (f.bit_range.offset <= b && b < f.bit_range.offset + f.bit_range.width));
                    if bit_in_fields(u, b) {
                        let k = choose|k: int|
                            0 <= k < u.len() && (#[trigger] u[k]).info_spec().bit_range.offset <= b
                                < u[k].info_spec().bit_range.offset + u[k].info_spec().bit_range.width;
                        assert(u[k] == t[k]);
                    }
                    if f.bit_range.offset <= b && b < f.bit_range.offset + f.bit_range.width {
                        assert(t[i as int].info_spec().bit_range.offset <= b);
                    }
                    if bit_in_fields(t, b) {
                        let k = choose|k: int|
                            0 <= k < t.len() && (#[trigger] t[k]).info_spec().bit_range.offset <= b
                                < t[k].info_spec().bit_range.offset + t[k].info_spec().bit_range.width;
                        if k < i {
                            assert(u[k] == t[k]);
                        }
                    }
                }
            }
            mask = next;
            i += 1;
        }
        assert(fs@.take(fs@.len() as int) =~= fs@);
        mask
    }
}

/// The field `f` matches the specification `spec`.
pub open spec fn field_matches(f: Field, spec: Seq<char>) -> bool {
    matchname_spec(f.info_spec().name@, spec) == Some(true)
}

/// The fields of `s` that `spec` does not match, in order.
pub open spec fn kept_fields(s: Seq<Field>, spec: Seq<char>) -> Seq<Field>
    decreases s.len(),
{
    if s.len() == 0 {
        s
    } else if field_matches(s.last(), spec) {
        kept_fields(s.drop_last(), spec)
    } else {
        kept_fields(s.drop_last(), spec).push(s.last())
    }
}

/// Every field name can be tested against `spec`.
pub open spec fn field_names_testable(s: Seq<Field>, spec: Seq<char>) -> bool {
    forall|i: int| 0 <= i < s.len() ==> (#[trigger] matchname_spec(s[i].info_spec().name@, spec)) is Some
}

/// Delete the fields that `fspec` matches.
pub fn delete_field(reg: &mut RegisterInfo, fspec: &str)
    requires
        field_names_testable(fields_of(old(reg).fields), fspec@),
    ensures
        match old(reg).fields {
            Some(v) => final(reg).fields matches Some(w) && w@ == kept_fields(v@, fspec@),
            None => final(reg).fields is None,
        },
        *final(reg) == (RegisterInfo { fields: final(reg).fields, ..*old(reg) }),
{
    if reg.fields.is_none() {
        return;
    }
    let mut list: Vec<Field> = match reg.fields.take() {
        Some(v) => v,
        None => Vec::new(),
    };
    let ghost s = list@;
    let n = list.len();
    let mut out: Vec<Field> = Vec::new();
    let mut i: usize = 0;
    while i < n
        invariant
            n == s.len(),
            i <= n,
            list@ == s.skip(i as int),
            field_names_testable(s, fspec@),
            out@ == kept_fields(s.take(i as int), fspec@),
        decreases n - i,
    {
        let f = list.remove(0);
        assert(f == s[i as int]);
        assert(s.take(i + 1).drop_last() =~= s.take(i as int));
        assert(s.take(i + 1).last() == s[i as int]);
        assert(matchname_spec(s[i as int].info_spec().name@, fspec@) is Some);
        let m = matchname(f.info().name.as_str(), fspec);
        if !m {
            out.push(f);
        }
        assert(list@ =~= s.skip(i + 1));
        i += 1;
    }
    assert(s.take(n as int) =~= s);
    reg.fields = Some(out);
}

/// `g` is `f` with its enumerated values and write constraint cleared when
/// `fspec` matches it.
pub open spec fn field_cleared(f: Field, g: Field, fspec: Seq<char>) -> bool {
    if field_matches(f, fspec) {
        &&& (g is Single) == (f is Single)
        &&& (f matches Field::Array(_, d) ==> g matches Field::Array(_, e) && e == d)
        &&& g.info_spec()@ == (FieldInfoModel {
            enumerated_values: Seq::empty(),
            write_constraint: None,
            ..f.info_spec()@
        })
    } else {
        g == f
    }
}

/// Clears the enumerated values and the write constraint of one field when
/// `fspec` matches it.
fn clear_one(f: &mut Field, fspec: &str)
    requires
        matchname_spec(old(f).info_spec().name@, fspec@) is Some,
    ensures
        field_cleared(*old(f), *final(f), fspec@),
{
    if matchname(f.info().name.as_str(), fspec) {
        let info = f.info_mut();
        info.enumerated_values = Vec::new();
        info.write_constraint = None;
        proof {
            assert(info@.enumerated_values =~= Seq::<crate::enumeratedvalues::EnumeratedValuesModel>::empty());
        }
    }
}

/// Clear the enumerated values and the write constraint of the fields that
/// `fspec` matches.
pub fn clear_field(reg: &mut RegisterInfo, fspec: &str)
    requires
        field_names_testable(fields_of(old(reg).fields), fspec@),
    ensures
        (final(reg).fields is Some) == (old(reg).fields is Some),
        fields_of(final(reg).fields).len() == fields_of(old(reg).fields).len(),
        forall|i: int|
            0 <= i < fields_of(old(reg).fields).len() ==> field_cleared(
                fields_of(old(reg).fields)[i],
                #[trigger] fields_of(final(reg).fields)[i],
                fspec@,
            ),
        *final(reg) == (RegisterInfo { fields: final(reg).fields, ..*old(reg) }),
{
    if let Some(fields) = &mut reg.fields {
        let ghost s = fields@;
        let n = fields.len();
        let mut i: usize = 0;
        while i < n
            invariant
                n == s.len(),
                n == fields@.len(),
                i <= n,
                field_names_testable(s, fspec@),
                forall|j: int| i <= j < n ==> fields@[j] == s[j],
                forall|j: int| 0 <= j < i ==> field_cleared(s[j], #[trigger] fields@[j], fspec@),
            decreases n - i,
        {
            assert(matchname_spec(s[i as int].info_spec().name@, fspec@) is Some);
            let f = &mut fields[i];
            clear_one(f, fspec);
            i += 1;
        }
    }
}

// ---------------------------------------------------------------------------
// Stripping the names of fields
// ---------------------------------------------------------------------------

/// Stripping `substr` from `name` fails (at its start, or at its end).
pub open spec fn strip_fails(name: Seq<char>, substr: Seq<char>, at_start: bool) -> bool {
    if at_start {
        strip_start_fails(name, substr)
    } else {
        strip_end_fails(name, substr)
    }
}

/// `new` is `name` stripped of `substr` (at its start, or at its end).
pub open spec fn stripped(name: Seq<char>, substr: Seq<char>, at_start: bool, new: Seq<char>) -> bool {
    if at_start {
        start_stripped(name, substr, new)
    } else {
        end_stripped(name, substr, new)
    }
}

/// `g` is `f` but for its name: the same kind, the same dimensions and the
/// same attributes.
pub open spec fn field_renamed(f: Field, g: Field) -> bool {
    &&& match f {
        Field::Single(_) => g is Single,
        Field::Array(_, d) => g matches Field::Array(_, e) && e == d,
    }
    &&& g.info_spec() == (FieldInfo { name: g.info_spec().name, ..f.info_spec() })
}

/// The name of some field of `s` cannot be stripped of `substr`.
pub open spec fn some_strip_fails(s: Seq<Field>, substr: Seq<char>, at_start: bool) -> bool {
    exists|i: int| 0 <= i < s.len() && strip_fails((#[trigger] s[i]).info_spec().name@, substr, at_start)
}

/// `new` is register `old` with the names of its fields stripped of
/// `substr`.
pub open spec fn fields_stripped(old: RegisterInfo, new: RegisterInfo, substr: Seq<char>, at_start: bool) -> bool {
    &&& (new.fields is Some) == (old.fields is Some)
    &&& fields_of(new.fields).len() == fields_of(old.fields).len()
    &&& forall|i: int|
        0 <= i < fields_of(old.fields).len() ==> {
            let f = fields_of(old.fields)[i];
            let g = #[trigger] fields_of(new.fields)[i];
            field_renamed(f, g) && stripped(f.info_spec().name@, substr, at_start, g.info_spec().name@)
        }
    &&& new == (RegisterInfo { fields: new.fields, ..old })
}

/// Gives field `f` the name `name`, keeping all else.
fn rename_field(f: &mut Field, name: String)
    ensures
        field_renamed(*old(f), *final(f)),
        final(f).info_spec().name == name,
{
    let info = f.info_mut();
    info.name = name;
}

/// Strips `substr` from the names of the fields of `reg`, at their start or
/// at their end; on failure `reg` is left as it was.
fn strip_fields(reg: &mut RegisterInfo, substr: &str, at_start: bool) -> (r: Result<(), PatchError>)
    ensures
        r is Err <==> some_strip_fails(fields_of(old(reg).fields), substr@, at_start),
        r is Err ==> *final(reg) == *old(reg),
        r is Ok ==> fields_stripped(*old(reg), *final(reg), substr@, at_start),
{
    let ghost s = fields_of(reg.fields);
    let n: usize = match &reg.fields {
        Some(v) => v.len(),
        None => 0,
    };
    let mut news: Vec<Option<String>> = Vec::new();
    let mut i: usize = 0;
    while i < n
        invariant
            s == fields_of(reg.fields),
            n == s.len(),
            i <= n,
            news@.len() == i,
            forall|j: int| 0 <= j < i ==> !strip_fails(#[trigger] s[j].info_spec().name@, substr@, at_start),
            forall|j: int|
                0 <= j < i ==> match #[trigger] news@[j] {
                    Some(t) => stripped(s[j].info_spec().name@, substr@, at_start, t@),
                    None => stripped(s[j].info_spec().name@, substr@, at_start, s[j].info_spec().name@),
                },
        decreases n - i,
    {
        let fs = match &reg.fields {
            Some(v) => v,
            None => {
                assert(false);
                return Ok(());
            },
        };
        let name = fs[i].info().name.as_str();
        let o = if at_start {
            strip_name_start(name, substr)
        } else {
            strip_name_end(name, substr)
        };
        match o {
            None => {
                assert(strip_fails(s[i as int].info_spec().name@, substr@, at_start));
                return Err(PatchError::Strip(owned(name)));
            },
            Some(x) => {
                news.push(x);
            },
        }
        i += 1;
    }
    if let Some(fields) = &mut reg.fields {
        let mut k: usize = 0;
        while k < n
            invariant
                n == s.len(),
                n == fields@.len(),
                news@.len() == n,
                k <= n,
                forall|j: int| k <= j < n ==> fields@[j] == s[j],
                forall|j: int|
                    0 <= j < n ==> match #[trigger] news@[j] {
                        Some(t) => stripped(s[j].info_spec().name@, substr@, at_start, t@),
                        None => stripped(s[j].info_spec().name@, substr@, at_start, s[j].info_spec().name@),
                    },
                forall|j: int|
                    0 <= j < k ==> field_renamed(s[j], #[trigger] fields@[j]) && stripped(
                        s[j].info_spec().name@,
                        substr@,
                        at_start,
                        fields@[j].info_spec().name@,
                    ),
            decreases n - k,
        {
            match clone_opt(&news[k]) {
                Some(t) => {
                    rename_field(&mut fields[k], t);
                },
                None => {
                    assert(field_renamed(s[k as int], fields@[k as int]));
                },
            }
            k += 1;
        }
    }
    Ok(())
}

/// Delete substring from the beginning of the names of the fields: from each
/// name that the glob `substr*` matches, as many bytes as `substr` has.
pub fn strip_start(reg: &mut RegisterInfo, substr: &str) -> (r: Result<(), PatchError>)
    ensures
        r is Err <==> some_strip_fails(fields_of(old(reg).fields), substr@, true),
        r is Err ==> *final(reg) == *old(reg),
        r is Ok ==> fields_stripped(*old(reg), *final(reg), substr@, true),
{
    strip_fields(reg, substr, true)
}

/// Delete substring from the ending of the names of the fields: from each
/// name that the glob `*substr` matches, as many bytes as `substr` has.
pub fn strip_end(reg: &mut RegisterInfo, substr: &str) -> (r: Result<(), PatchError>)
    ensures
        r is Err <==> some_strip_fails(fields_of(old(reg).fields), substr@, false),
        r is Err ==> *final(reg) == *old(reg),
        r is Ok ==> fields_stripped(*old(reg), *final(reg), substr@, false),
{
    strip_fields(reg, substr, false)
}

// ---------------------------------------------------------------------------
// Finding fields
// ---------------------------------------------------------------------------

/// Some field of `s` matches `spec`.
pub open spec fn some_field_matches(s: Seq<Field>, spec: Seq<char>) -> bool {
    exists|i: int| 0 <= i < s.len() && field_matches(#[trigger] s[i], spec)
}

/// `g` is of the same kind as `f`, with the same dimensions if an array.
pub open spec fn same_kind(f: Field, g: Field) -> bool {
    match f {
        Field::Single(_) => g is Single,
        Field::Array(_, d) => g matches Field::Array(_, e) && e == d,
    }
}

/// `a:b`, to name what a message is about.
pub fn qualified(a: &str, b: &str) -> (r: String)
    ensures
        r@ == a@ + ":"@ + b@,
{
    let t = concat(a, ":");
    concat(t.as_str(), b)
}

/// Whether some field of `fs` matches `fspec`; an error when the name of
/// one of them cannot be tested against it.
pub fn scan_fields(fs: &[Field], fspec: &str) -> (r: Result<bool, PatchError>)
    ensures
        r is Err <==> !field_names_testable(fs@, fspec@),
        r matches Ok(b) ==> b == some_field_matches(fs@, fspec@),
{
    let mut found = false;
    let mut i: usize = 0;
    while i < fs.len()
        invariant
            i <= fs@.len(),
            field_names_testable(fs@.take(i as int), fspec@),
            found == some_field_matches(fs@.take(i as int), fspec@),
        decreases fs@.len() - i,
    {
        let ghost t = fs@.take(i + 1);
        assert(t[i as int] == fs@[i as int]);
        assert forall|j: int| 0 <= j < i implies t[j] == #[trigger] fs@.take(i as int)[j] by {}
        match checked_matchname(fs[i].info().name.as_str(), fspec) {
            None => {
                assert(!field_names_testable(fs@, fspec@)) by {
                    assert(matchname_spec(fs@[i as int].info_spec().name@, fspec@) is None);
                }
                return Err(PatchError::InvalidGlob(owned(fspec)));
            },
            Some(m) => {
                proof {
                    if m {
                        assert(field_matches(t[i as int], fspec@));
                    }
                    if some_field_matches(t, fspec@) && !m {
                        let k = choose|k: int| 0 <= k < t.len() && field_matches(#[trigger] t[k], fspec@);
                        assert(k < i);
                        assert(fs@.take(i as int)[k] == t[k]);
                    }
                    if found {
                        let k = choose|k: int|
                            0 <= k < i && field_matches(#[trigger] fs@.take(i as int)[k], fspec@);
                        assert(fs@.take(i as int)[k] == t[k]);
                    }
                }
                found = found || m;
            },
        }
        i += 1;
    }
    assert(fs@.take(fs@.len() as int) =~= fs@);
    Ok(found)
}

// ---------------------------------------------------------------------------
// Write constraints
// ---------------------------------------------------------------------------

/// The range that a pair of values of a patch file gives: both must be
/// integers.
pub open spec fn range_of(v: Seq<YamlValue>) -> Option<WriteConstraintRange> {
    if v.len() >= 2 && number_spec(model(v[0])) is Some && number_spec(model(v[1])) is Some {
        Some(
            WriteConstraintRange {
                min: number_spec(model(v[0]))->0 as u64,
                max: number_spec(model(v[1]))->0 as u64,
            },
        )
    } else {
        None
    }
}

/// Reads the range that a pair of values of a patch file gives.
fn read_range(v: &Vec<YamlValue>) -> (r: Option<WriteConstraintRange>)
    ensures
        r == range_of(v@),
{
    if v.len() < 2 {
        return None;
    }
    match (parse_i64(&v[0]), parse_i64(&v[1])) {
        (Some(a), Some(b)) => Some(WriteConstraintRange { min: a as u64, max: b as u64 }),
        _ => None,
    }
}

/// `g` is `f` with the write constraint `wc` where `fspec` matches `f`; else
/// `f`.
pub open spec fn field_constrained(f: Field, g: Field, fspec: Seq<char>, wc: Option<WriteConstraint>) -> bool {
    if field_matches(f, fspec) {
        same_kind(f, g) && g.info_spec() == (FieldInfo { write_constraint: wc, ..f.info_spec() })
    } else {
        g == f
    }
}

/// `new` is `old` with each field changed as `rel` says of it, in place.
pub open spec fn each_field(old: RegisterInfo, new: RegisterInfo, rel: spec_fn(Field, Field) -> bool) -> bool {
    &&& (new.fields is Some) == (old.fields is Some)
    &&& fields_of(new.fields).len() == fields_of(old.fields).len()
    &&& forall|i: int|
        0 <= i < fields_of(old.fields).len() ==> rel(fields_of(old.fields)[i], #[trigger] fields_of(new.fields)[i])
    &&& new == (RegisterInfo { fields: new.fields, ..old })
}

/// Gives the fields of `reg` that `fspec` matches the write constraint `wc`.
fn constrain_fields(reg: &mut RegisterInfo, fspec: &str, wc: Option<WriteConstraint>)
    requires
        field_names_testable(fields_of(old(reg).fields), fspec@),
    ensures
        each_field(*old(reg), *final(reg), |f: Field, g: Field| field_constrained(f, g, fspec@, wc)),
{
    if let Some(fields) = &mut reg.fields {
        let ghost s = fields@;
        let n = fields.len();
        let mut i: usize = 0;
        while i < n
            invariant
                n == s.len(),
                n == fields@.len(),
                i <= n,
                field_names_testable(s, fspec@),
                forall|j: int| i <= j < n ==> fields@[j] == s[j],
                forall|j: int| 0 <= j < i ==> field_constrained(s[j], #[trigger] fields@[j], fspec@, wc),
            decreases n - i,
        {
            assert(matchname_spec(s[i as int].info_spec().name@, fspec@) is Some);
            let f = &mut fields[i];
            if matchname(f.info().name.as_str(), fspec) {
                let info = f.info_mut();
                info.write_constraint = wc;
            }
            i += 1;
        }
    }
}

/// Add a writeConstraint range given by field to all fspec in rtag: the
/// fields that `fspec` matches get the range of the two values `fmod`.
/// Fails, leaving the register as it was, when a name cannot be tested,
/// when no field matches or when the values give no range.
pub fn process_field_range(reg: &mut RegisterInfo, pname: &str, fspec: &str, fmod: &Vec<YamlValue>) -> (r: Result<
    (),
    PatchError,
>)
    ensures
        r is Ok <==> field_names_testable(fields_of(old(reg).fields), fspec@) && some_field_matches(
            fields_of(old(reg).fields),
            fspec@,
        ) && range_of(fmod@) is Some,
        r is Err ==> *final(reg) == *old(reg),
        r is Ok ==> each_field(
            *old(reg),
            *final(reg),
            |f: Field, g: Field|
                field_constrained(f, g, fspec@, Some(WriteConstraint::Range(range_of(fmod@)->0))),
        ),
{
    let found = match scan_fields(reg.fields(), fspec) {
        Err(e) => return Err(e),
        Ok(b) => b,
    };
    if !found {
        return Err(PatchError::NotFound(qualified(pname, fspec)));
    }
    let range = match read_range(fmod) {
        Some(r) => r,
        None => return Err(PatchError::Value(qualified(pname, fspec))),
    };
    constrain_fields(reg, fspec, Some(WriteConstraint::Range(range)));
    Ok(())
}

// ---------------------------------------------------------------------------
// Adding a field
// ---------------------------------------------------------------------------

/// Some field of `s` is named `name`.
pub open spec fn field_named(s: Seq<Field>, name: Seq<char>) -> bool {
    exists|i: int| 0 <= i < s.len() && (#[trigger] s[i]).info_spec().name@ == name
}

/// The index of a field of `fs` named `name`, if any.
pub fn find_field(fs: &[Field], name: &str) -> (r: Option<usize>)
    ensures
        r is None <==> !field_named(fs@, name@),
        r matches Some(i) ==> i < fs@.len() && fs@[i as int].info_spec().name@ == name@,
{
    let mut i: usize = 0;
    while i < fs.len()
        invariant
            i <= fs@.len(),
            forall|j: int| 0 <= j < i ==> (#[trigger] fs@[j]).info_spec().name@ != name@,
        decreases fs@.len() - i,
    {
        if crate::text::str_eq(fs[i].info().name.as_str(), name) {
            return Some(i);
        }
        i += 1;
    }
    None
}

/// The error of a failed build, as an error of the patch.
pub open spec fn build_outcome(r: Result<(), PatchError>) -> Result<(), SvdError> {
    match r {
        Ok(()) => Ok(()),
        Err(PatchError::Invalid(e)) => Err(e),
        Err(_) => Ok(()),
    }
}

/// Add fname given by fadd to rtag: a single field named `fname`, built from
/// the mapping `fadd` (see [`new_field_model`]), goes after the others.
/// Fails, leaving the register as it was, when a field has that name
/// already, when the mapping gives no bit offset and width, or when the new
/// field is not valid.
pub fn add_field(reg: &mut RegisterInfo, fname: &str, fadd: &Vec<(YamlValue, YamlValue)>) -> (r: Result<(), PatchError>)
    ensures
        field_named(fields_of(old(reg).fields), fname@) ==> r matches Err(PatchError::Exists(_)),
        !field_named(fields_of(old(reg).fields), fname@) ==> {
            &&& field_range_of(fadd@) is None ==> r is Err
            &&& field_range_of(fadd@) is Some ==> new_field_model(fadd@, fname@).validate_spec(
                VAL_LVL,
                build_outcome(r),
            ) && (r is Err ==> r matches Err(PatchError::Invalid(_)))
        },
        r is Err ==> *final(reg) == *old(reg),
        r is Ok ==> {
            &&& final(reg).fields is Some
            &&& fields_of(final(reg).fields).len() == fields_of(old(reg).fields).len() + 1
            &&& fields_of(final(reg).fields).drop_last() == fields_of(old(reg).fields)
            &&& fields_of(final(reg).fields).last() matches Field::Single(f) && f@ == new_field_model(
                fadd@,
                fname@,
            )
            &&& *final(reg) == (RegisterInfo { fields: final(reg).fields, ..*old(reg) })
        },
{
    if find_field(reg.fields(), fname).is_some() {
        return Err(PatchError::Exists(qualified(reg.name.as_str(), fname)));
    }
    let b = make_field(fadd).name(owned(fname));
    proof {
        reveal_strlit("bitOffset");
        reveal_strlit("bitWidth");
        reveal_strlit("description");
        reveal_strlit("access");
    }
    if b.bit_range.is_none() {
        return match b.build(VAL_LVL) {
            Ok(_) => {
                assert(false);
                Ok(())
            },
            Err(e) => Err(PatchError::Invalid(e)),
        };
    }
    assert(b.built() == new_field_model(fadd@, fname@));
    let f = match b.build(VAL_LVL) {
        Ok(f) => f,
        Err(e) => return Err(PatchError::Invalid(e)),
    };
    let fnew = Field::Single(f);
    match &mut reg.fields {
        Some(v) => {
            v.push(fnew);
        },
        None => {
            let mut v: Vec<Field> = Vec::new();
            v.push(fnew);
            reg.fields = Some(v);
        },
    }
    proof {
        assert(fields_of(reg.fields).drop_last() =~= fields_of(old(reg).fields));
    }
    Ok(())
}

// ---------------------------------------------------------------------------
// Splitting a field into fields one bit wide
// ---------------------------------------------------------------------------

/// How many fields of `s` `spec` matches.
pub open spec fn match_count(s: Seq<Field>, spec: Seq<char>) -> nat
    decreases s.len(),
{
    if s.len() == 0 {
        0
    } else {
        match_count(s.drop_last(), spec) + if field_matches(s.last(), spec) {
            1nat
        } else {
            0nat
        }
    }
}

/// `k` is the position of the first field of `s` that `spec` matches.
pub open spec fn is_first_match(s: Seq<Field>, spec: Seq<char>, k: int) -> bool {
    0 <= k < s.len() && field_matches(s[k], spec) && forall|j: int| 0 <= j < k ==> !field_matches(#[trigger] s[j], spec)
}

/// The position of the first field of `s` that `spec` matches.
pub open spec fn first_match_at(s: Seq<Field>, spec: Seq<char>) -> int {
    choose|k: int| is_first_match(s, spec, k)
}

/// The fields of `s` not named `name`, in order.
pub open spec fn not_named(s: Seq<Field>, name: Seq<char>) -> Seq<Field>
    decreases s.len(),
{
    if s.len() == 0 {
        s
    } else if s.last().info_spec().name@ == name {
        not_named(s.drop_last(), name)
    } else {
        not_named(s.drop_last(), name).push(s.last())
    }
}

/// The name pattern of the fields that splitting `f` gives: the name that
/// the mapping gives, else the name of `f` followed by `%s`.
pub open spec fn split_name(fsplit: Seq<(YamlValue, YamlValue)>, f: Field) -> Seq<char> {
    match key_text(fsplit, "name"@) {
        Some(n) => n,
        None => f.info_spec().name@ + "%s"@,
    }
}

/// The description pattern of the fields that splitting `f` gives: the one
/// that the mapping gives, else that of `f`.
pub open spec fn split_description(fsplit: Seq<(YamlValue, YamlValue)>, f: Field) -> Option<Seq<char>> {
    match key_text(fsplit, "description"@) {
        Some(d) => Some(d),
        None => opt_chars(f.info_spec().description),
    }
}

/// Field `i` of a split: one bit wide at `offset + i`, with `%s` replaced
/// by `i` in the name and the description.
pub open spec fn split_part(name: Seq<char>, desc: Option<Seq<char>>, offset: u32, i: nat) -> crate::field::FieldInfoModel {
    crate::field::FieldInfoModel {
        name: replace_spec(name, "%s"@, decimal(i)),
        description: nonempty_chars(
            match desc {
                Some(d) => Some(replace_spec(d, "%s"@, decimal(i))),
                None => None,
            },
        ),
        bit_range: BitRange::offset_width_spec((offset + i) as u32, 1),
        access: None,
        modified_write_values: None,
        write_constraint: None,
        read_action: None,
        enumerated_values: Seq::empty(),
        derived_from: None,
    }
}

/// The bit offsets of the parts of a split of `f` all fit in 32 bits.
pub open spec fn split_fits(f: Field) -> bool {
    let b = f.info_spec().bit_range;
    b.width == 0 || b.offset + b.width - 1 <= u32::MAX
}

/// The last `width` fields of `t` are the parts of a split.
pub open spec fn split_parts_at(t: Seq<Field>, start: int, name: Seq<char>, desc: Option<Seq<char>>, offset: u32, width: nat) -> bool {
    &&& t.len() == start + width
    &&& forall|i: int|
        0 <= i < width ==> ((#[trigger] t[start + i]) matches Field::Single(g) && g@ == split_part(
            name,
            desc,
            offset,
            i as nat,
        ))
}

proof fn lemma_first_match_unique(s: Seq<Field>, spec: Seq<char>, k: int)
    requires
        is_first_match(s, spec, k),
    ensures
        first_match_at(s, spec) == k,
{
    let c = first_match_at(s, spec);
    assert(is_first_match(s, spec, c));
    if c < k {
        assert(!field_matches(s[c], spec));
    }
    if k < c {
        assert(!field_matches(s[k], spec));
    }
}

/// The position of the field of `fs` that `fspec` matches, when exactly
/// one matches; `Ok(None)` when none or more than one does.
fn single_match(fs: &[Field], fspec: &str) -> (r: Result<Option<usize>, PatchError>)
    ensures
        r is Err <==> !field_names_testable(fs@, fspec@),
        r matches Ok(o) ==> (o is Some <==> match_count(fs@, fspec@) == 1),
        r matches Ok(Some(k)) ==> is_first_match(fs@, fspec@, k as int),
{
    let mut count: usize = 0;
    let mut first: usize = 0;
    let mut i: usize = 0;
    while i < fs.len()
        invariant
            i <= fs@.len(),
            field_names_testable(fs@.take(i as int), fspec@),
            count == match_count(fs@.take(i as int), fspec@),
            count <= i,
            count >= 1 ==> is_first_match(fs@, fspec@, first as int) && first < i,
            count == 0 ==> forall|j: int| 0 <= j < i ==> !field_matches(#[trigger] fs@[j], fspec@),
        decreases fs@.len() - i,
    {
        let ghost t = fs@.take(i + 1);
        assert(t.drop_last() =~= fs@.take(i as int));
        assert(t.last() == fs@[i as int]);
        assert forall|j: int| 0 <= j < i implies t[j] == #[trigger] fs@.take(i as int)[j] by {}
        match checked_matchname(fs[i].info().name.as_str(), fspec) {
            None => {
                assert(matchname_spec(fs@[i as int].info_spec().name@, fspec@) is None);
                return Err(PatchError::InvalidGlob(owned(fspec)));
            },
            Some(m) => {
                if m {
                    if count == 0 {
                        first = i;
                    }
                    count += 1;
                }
            },
        }
        i += 1;
    }
    assert(fs@.take(fs@.len() as int) =~= fs@);
    if count == 1 {
        Ok(Some(first))
    } else {
        Ok(None)
    }
}

/// The fields of `v` not named `name`, in order.
fn keep_not_named(v: Vec<Field>, name: &str) -> (r: Vec<Field>)
    ensures
        r@ == not_named(v@, name@),
{
    let mut list = v;
    let ghost s = list@;
    let n = list.len();
    let mut out: Vec<Field> = Vec::new();
    let mut i: usize = 0;
    while i < n
        invariant
            n == s.len(),
            i <= n,
            list@ == s.skip(i as int),
            out@ == not_named(s.take(i as int), name@),
        decreases n - i,
    {
        let f = list.remove(0);
        assert(f == s[i as int]);
        assert(s.take(i + 1).drop_last() =~= s.take(i as int));
        assert(s.take(i + 1).last() == s[i as int]);
        if !crate::text::str_eq(f.info().name.as_str(), name) {
            out.push(f);
        }
        assert(list@ =~= s.skip(i + 1));
        i += 1;
    }
    assert(s.take(n as int) =~= s);
    out
}

/// The parts of a split: `width` fields one bit wide from `offset` on.
fn split_parts(name: &str, desc: &Option<String>, offset: u32, width: u32) -> (r: Vec<Field>)
    requires
        width == 0 || offset + width - 1 <= u32::MAX,
    ensures
        split_parts_at(r@, 0, name@, opt_chars(*desc), offset, width as nat),
{
    let mut parts: Vec<Field> = Vec::new();
    let mut i: u32 = 0;
    proof {
        reveal_strlit("%s");
    }
    while i < width
        invariant
            i <= width,
            width == 0 || offset + width - 1 <= u32::MAX,
            split_parts_at(parts@, 0, name@, opt_chars(*desc), offset, i as nat),
        decreases width - i,
    {
        proof {
            reveal_strlit("%s");
        }
        let is = u32_to_string(i);
        let n = replace_str(name, "%s", is.as_str());
        let d = match desc {
            Some(t) => Some(replace_str(t.as_str(), "%s", is.as_str())),
            None => None,
        };
        let b = FieldInfo::builder().name(n).description(d).bit_range(BitRange::from_offset_width(offset + i, 1));
        assert(b.built() == split_part(name@, opt_chars(*desc), offset, i as nat));
        let f = match b.build(VAL_LVL) {
            Ok(f) => f,
            Err(_) => {
                assert(false);
                return parts;
            },
        };
        parts.push(Field::Single(f));
        i += 1;
        assert forall|j: int| 0 <= j < i implies ((#[trigger] parts@[0 + j]) matches Field::Single(g) && g@
            == split_part(name@, opt_chars(*desc), offset, j as nat)) by {
            if j < i - 1 {
                assert(parts@[0 + j] == parts@.drop_last()[0 + j]);
            }
        }
    }
    parts
}

/// Split all fspec in rtag: the one field that `fspec` matches gives way
/// (with every field of its name) to fields one bit wide, one per bit of it,
/// appended to the others; name and description follow the patterns of
/// [`split_name`] and [`split_description`], with `%s` standing for the
/// bit. Fails, leaving the register as it was, when a name cannot be
/// tested, when not exactly one field matches, or when the bit offsets of
/// the parts do not fit in 32 bits.
pub fn split_fields(reg: &mut RegisterInfo, fspec: &str, fsplit: &Vec<(YamlValue, YamlValue)>) -> (r: Result<(), PatchError>)
    ensures
        r is Ok <==> field_names_testable(fields_of(old(reg).fields), fspec@) && match_count(
            fields_of(old(reg).fields),
            fspec@,
        ) == 1 && split_fits(fields_of(old(reg).fields)[first_match_at(fields_of(old(reg).fields), fspec@)]),
        r is Err ==> *final(reg) == *old(reg),
        r is Ok ==> {
            let s = fields_of(old(reg).fields);
            let f = s[first_match_at(s, fspec@)];
            let kept = not_named(s, f.info_spec().name@);
            &&& final(reg).fields is Some
            &&& fields_of(final(reg).fields).take(kept.len() as int) == kept
            &&& split_parts_at(
                fields_of(final(reg).fields),
                kept.len() as int,
                split_name(fsplit@, f),
                split_description(fsplit@, f),
                f.info_spec().bit_range.offset,
                f.info_spec().bit_range.width as nat,
            )
            &&& *final(reg) == (RegisterInfo { fields: final(reg).fields, ..*old(reg) })
        },
{
    let ghost s = fields_of(reg.fields);
    let k = match single_match(reg.fields(), fspec) {
        Err(e) => return Err(e),
        Ok(None) => return Err(PatchError::TooMany(qualified(reg.name.as_str(), fspec))),
        Ok(Some(k)) => k,
    };
    proof {
        lemma_first_match_unique(s, fspec@, k as int);
    }
    let first = reg.fields()[k].info();
    let offset = first.bit_range.offset;
    let width = first.bit_range.width;
    if width > 0 && offset > u32::MAX - (width - 1) {
        return Err(PatchError::Value(qualified(reg.name.as_str(), fspec)));
    }
    proof {
        reveal_strlit("name");
        reveal_strlit("description");
        reveal_strlit("%s");
    }
    let name = match get_str(fsplit, "name") {
        Some(n) => owned(n),
        None => concat(first.name.as_str(), "%s"),
    };
    let desc = match get_str(fsplit, "description") {
        Some(d) => Some(owned(d)),
        None => clone_opt(&first.description),
    };
    let parts = split_parts(name.as_str(), &desc, offset, width);
    let old_name = first.name.clone();
    let v = match reg.fields.take() {
        Some(v) => v,
        None => Vec::new(),
    };
    let mut kept = keep_not_named(v, old_name.as_str());
    let ghost kept_s = kept@;
    let ghost parts_s = parts@;
    let mut parts = parts;
    kept.append(&mut parts);
    proof {
        assert(kept@ == kept_s + parts_s);
        assert(kept@.take(kept_s.len() as int) =~= kept_s);
        assert forall|i: int| 0 <= i < width implies #[trigger] kept@[kept_s.len() + i] == parts_s[0 + i] by {}
    }
    reg.fields = Some(kept);
    Ok(())
}

// ---------------------------------------------------------------------------
// Merging fields into one
// ---------------------------------------------------------------------------

/// The names of the fields of `s` that `spec` matches, in order.
pub open spec fn matched_names(s: Seq<Field>, spec: Seq<char>) -> Seq<Seq<char>>
    decreases s.len(),
{
    if s.len() == 0 {
        Seq::empty()
    } else if field_matches(s.last(), spec) {
        matched_names(s.drop_last(), spec).push(s.last().info_spec().name@)
    } else {
        matched_names(s.drop_last(), spec)
    }
}

/// Every item of a list is a text that every name of `s` can be tested
/// against.
pub open spec fn items_testable(s: Seq<Field>, items: Seq<YamlValue>) -> bool {
    forall|i: int|
        0 <= i < items.len() ==> (#[trigger] items[i] matches YamlValue::String(t) && field_names_testable(s, t@))
}

/// The names that the texts of a list match in turn.
pub open spec fn items_names(s: Seq<Field>, items: Seq<YamlValue>) -> Seq<Seq<char>>
    decreases items.len(),
{
    if items.len() == 0 {
        Seq::empty()
    } else {
        items_names(s, items.drop_last()) + match items.last() {
            YamlValue::String(t) => matched_names(s, t@),
            _ => Seq::empty(),
        }
    }
}

/// The names of the fields to merge for `key` with `value`: those that a
/// text matches, those that the texts of a list match, or, without a value,
/// those that `key` matches. `None` for a value of another kind, or where a
/// name cannot be tested.
pub open spec fn merge_names(s: Seq<Field>, key: Seq<char>, value: Option<YamlValue>) -> Option<Seq<Seq<char>>> {
    match value {
        Some(YamlValue::String(t)) => if field_names_testable(s, t@) {
            Some(matched_names(s, t@))
        } else {
            None
        },
        Some(YamlValue::Array(items)) => if items_testable(s, items@) {
            Some(items_names(s, items@))
        } else {
            None
        },
        Some(_) => None,
        None => if field_names_testable(s, key) {
            Some(matched_names(s, key))
        } else {
            None
        },
    }
}

/// The name of field `f` is one of `names`.
pub open spec fn named_in(f: Field, names: Seq<Seq<char>>) -> bool {
    names.contains(f.info_spec().name@)
}

/// The sum of the widths of the fields of `s` named in `names`.
pub open spec fn merged_width(s: Seq<Field>, names: Seq<Seq<char>>) -> int
    decreases s.len(),
{
    if s.len() == 0 {
        0
    } else {
        merged_width(s.drop_last(), names) + if named_in(s.last(), names) {
            s.last().info_spec().bit_range.width as int
        } else {
            0
        }
    }
}

/// The least offset of the fields of `s` named in `names` (`u32::MAX` for
/// none).
pub open spec fn merged_offset(s: Seq<Field>, names: Seq<Seq<char>>) -> int
    decreases s.len(),
{
    if s.len() == 0 {
        u32::MAX as int
    } else {
        let m = merged_offset(s.drop_last(), names);
        let o = s.last().info_spec().bit_range.offset as int;
        if named_in(s.last(), names) && o < m {
            o
        } else {
            m
        }
    }
}

/// The first field of `s` named in `names`.
pub open spec fn first_named(s: Seq<Field>, names: Seq<Seq<char>>) -> Option<Field>
    decreases s.len(),
{
    if s.len() == 0 {
        None
    } else {
        match first_named(s.drop_last(), names) {
            Some(f) => Some(f),
            None => if named_in(s.last(), names) {
                Some(s.last())
            } else {
                None
            },
        }
    }
}

/// The fields of `s` not named in `names`, in order.
pub open spec fn not_in(s: Seq<Field>, names: Seq<Seq<char>>) -> Seq<Field>
    decreases s.len(),
{
    if s.len() == 0 {
        s
    } else if named_in(s.last(), names) {
        not_in(s.drop_last(), names)
    } else {
        not_in(s.drop_last(), names).push(s.last())
    }
}

/// The field that merging gives, with the name `name`: the description of
/// the first merged field, the least offset and the summed widths.
pub open spec fn merged_field(s: Seq<Field>, names: Seq<Seq<char>>, name: Seq<char>) -> crate::field::FieldInfoModel {
    crate::field::FieldInfoModel {
        name,
        description: nonempty_chars(
            match first_named(s, names) {
                Some(f) => opt_chars(f.info_spec().description),
                None => None,
            },
        ),
        bit_range: BitRange::offset_width_spec(merged_offset(s, names) as u32, merged_width(s, names) as u32),
        access: None,
        modified_write_values: None,
        write_constraint: None,
        read_action: None,
        enumerated_values: Seq::empty(),
        derived_from: None,
    }
}

/// `name` is the name of the merged field: `key` when a value names the
/// fields, else the longest common prefix (in bytes) of their names.
pub open spec fn merged_name(key: Seq<char>, value: Option<YamlValue>, names: Seq<Seq<char>>, name: Seq<char>) -> bool {
    if value is None {
        utf8(name) == utf8(names[0]).take(lcp_upto(names, names.len() as int))
    } else {
        name == key
    }
}

/// The names of the fields of `fs` that `fspec` matches.
fn collect_matched(fs: &[Field], fspec: &str) -> (r: Result<Vec<String>, PatchError>)
    ensures
        r is Err <==> !field_names_testable(fs@, fspec@),
        r matches Ok(v) ==> strings_view(v@) == matched_names(fs@, fspec@),
{
    let mut out: Vec<String> = Vec::new();
    let mut i: usize = 0;
    while i < fs.len()
        invariant
            i <= fs@.len(),
            field_names_testable(fs@.take(i as int), fspec@),
            strings_view(out@) == matched_names(fs@.take(i as int), fspec@),
        decreases fs@.len() - i,
    {
        let ghost t = fs@.take(i + 1);
        assert(t.drop_last() =~= fs@.take(i as int));
        assert(t.last() == fs@[i as int]);
        assert forall|j: int| 0 <= j < i implies t[j] == #[trigger] fs@.take(i as int)[j] by {}
        let name = fs[i].info().name.as_str();
        match checked_matchname(name, fspec) {
            None => {
                assert(matchname_spec(fs@[i as int].info_spec().name@, fspec@) is None);
                return Err(PatchError::InvalidGlob(owned(fspec)));
            },
            Some(m) => {
                if m {
                    out.push(owned(name));
                    assert(strings_view(out@) =~= matched_names(t, fspec@));
                }
            },
        }
        i += 1;
    }
    assert(fs@.take(fs@.len() as int) =~= fs@);
    Ok(out)
}

/// The names that the texts of `items` match in turn.
fn collect_items(fs: &[Field], items: &Vec<YamlValue>) -> (r: Result<Vec<String>, PatchError>)
    ensures
        r is Err <==> !items_testable(fs@, items@),
        r matches Ok(v) ==> strings_view(v@) == items_names(fs@, items@),
{
    let mut out: Vec<String> = Vec::new();
    let mut i: usize = 0;
    while i < items.len()
        invariant
            i <= items@.len(),
            items_testable(fs@, items@.take(i as int)),
            strings_view(out@) == items_names(fs@, items@.take(i as int)),
        decreases items@.len() - i,
    {
        let ghost t = items@.take(i + 1);
        assert(t.drop_last() =~= items@.take(i as int));
        assert(t.last() == items@[i as int]);
        assert forall|j: int| 0 <= j < i implies t[j] == #[trigger] items@.take(i as int)[j] by {}
        match &items[i] {
            YamlValue::String(spec) => match collect_matched(fs, spec.as_str()) {
                Err(e) => {
                    return Err(e);
                },
                Ok(mut v) => {
                    let ghost before = strings_view(out@);
                    let ghost add = strings_view(v@);
                    out.append(&mut v);
                    assert(strings_view(out@) =~= before + add);
                },
            },
            _ => {
                return Err(PatchError::Value(owned("merge")));
            },
        }
        i += 1;
    }
    assert(items@.take(items@.len() as int) =~= items@);
    Ok(out)
}

/// Whether `name` is one of `names`.
fn names_contain(names: &Vec<String>, name: &str) -> (r: bool)
    ensures
        r == strings_view(names@).contains(name@),
{
    let mut i: usize = 0;
    while i < names.len()
        invariant
            i <= names@.len(),
            forall|j: int| 0 <= j < i ==> strings_view(names@)[j] != name@,
        decreases names@.len() - i,
    {
        if str_eq(names[i].as_str(), name) {
            assert(strings_view(names@)[i as int] == name@);
            return true;
        }
        i += 1;
    }
    false
}

/// Merge all fspec in rtag: the fields named in [`merge_names`] give way
/// to one field (see [`merged_field`] and [`merged_name`]) appended to the
/// others. Fails, leaving the register as it was, when the value is of the
/// wrong kind, a name cannot be tested, no field matches, the common prefix
/// ends inside a character, or the summed width is zero or does not fit in
/// 32 bits.
pub fn merge_fields(reg: &mut RegisterInfo, key: &str, value: Option<&YamlValue>) -> (r: Result<(), PatchError>)
    ensures
        ({
            let s = fields_of(old(reg).fields);
            let o = merge_names(s, key@, match value { Some(y) => Some(*y), None => None });
            r is Ok <==> o is Some && o->0.len() > 0 && (value is None ==> splits_at(
                o->0[0],
                lcp_upto(o->0, o->0.len() as int),
            )) && 0 < merged_width(s, o->0) <= u32::MAX
        }),
        r is Err ==> *final(reg) == *old(reg),
        r is Ok ==> ({
            let s = fields_of(old(reg).fields);
            let names = merge_names(s, key@, match value { Some(y) => Some(*y), None => None })->0;
            let t = fields_of(final(reg).fields);
            &&& final(reg).fields is Some
            &&& t.len() > 0
            &&& t.drop_last() == not_in(s, names)
            &&& t.last() matches Field::Single(g) && merged_name(
                key@,
                match value { Some(y) => Some(*y), None => None },
                names,
                g@.name,
            ) && g@ == merged_field(s, names, g@.name)
            &&& *final(reg) == (RegisterInfo { fields: final(reg).fields, ..*old(reg) })
        }),
{
    let ghost s = fields_of(reg.fields);
    let ghost vo = match value {
        Some(y) => Some(*y),
        None => None,
    };
    let names: Vec<String> = match value {
        Some(YamlValue::String(t)) => match collect_matched(reg.fields(), t.as_str()) {
            Err(e) => return Err(e),
            Ok(v) => v,
        },
        Some(YamlValue::Array(items)) => match collect_items(reg.fields(), items) {
            Err(e) => return Err(e),
            Ok(v) => v,
        },
        Some(_) => return Err(PatchError::Value(qualified(reg.name.as_str(), key))),
        None => match collect_matched(reg.fields(), key) {
            Err(e) => return Err(e),
            Ok(v) => v,
        },
    };
    let ghost nv = strings_view(names@);
    assert(merge_names(s, key@, vo) == Some(nv));
    let name = match value {
        None => match longest_common_prefix(&names) {
            Some(t) => t,
            None => return Err(PatchError::Strip(qualified(reg.name.as_str(), key))),
        },
        Some(_) => owned(key),
    };
    if names.len() == 0 {
        return Err(PatchError::NotFound(qualified(reg.name.as_str(), key)));
    }
    let fs = reg.fields();
    let mut width: u32 = 0;
    let mut offset: u32 = u32::MAX;
    let mut desc: Option<String> = None;
    let mut found = false;
    let mut i: usize = 0;
    while i < fs.len()
        invariant
            i <= fs@.len(),
            fs@ == s,
            s == fields_of(old(reg).fields),
            vo == (match value {
                Some(y) => Some(*y),
                None => None,
            }),
            merge_names(s, key@, vo) == Some(nv),
            nv == strings_view(names@),
            width == merged_width(s.take(i as int), nv),
            offset == merged_offset(s.take(i as int), nv),
            found == (first_named(s.take(i as int), nv) is Some),
            found ==> opt_chars(desc) == opt_chars(first_named(s.take(i as int), nv)->0.info_spec().description),
            !found ==> desc is None,
        decreases fs@.len() - i,
    {
        let ghost t = s.take(i + 1);
        assert(t.drop_last() =~= s.take(i as int));
        assert(t.last() == s[i as int]);
        let f = fs[i].info();
        if names_contain(&names, f.name.as_str()) {
            if !found {
                desc = clone_opt(&f.description);
                found = true;
            }
            width = match width.checked_add(f.bit_range.width) {
                Some(w) => w,
                None => {
                    proof {
                        assert(named_in(t.last(), nv));
                        assert(merged_width(t, nv) == width + f.bit_range.width);
                        lemma_merged_width_grows(s, nv, i as int + 1);
                    }
                    return Err(PatchError::Value(qualified(reg.name.as_str(), key)));
                },
            };
            if f.bit_range.offset < offset {
                offset = f.bit_range.offset;
            }
        }
        i += 1;
    }
    assert(s.take(s.len() as int) =~= s);
    if width == 0 {
        return Err(PatchError::Value(qualified(reg.name.as_str(), key)));
    }
    let b = FieldInfo::builder().name(name).description(desc).bit_range(BitRange::from_offset_width(offset, width));
    assert(b.built() == merged_field(s, nv, b.name->0@));
    let merged = match b.build(VAL_LVL) {
        Ok(f) => f,
        Err(e) => {
            assert(false);
            return Err(PatchError::Invalid(e));
        },
    };
    let v = match reg.fields.take() {
        Some(v) => v,
        None => Vec::new(),
    };
    let mut list = v;
    let n = list.len();
    let mut out: Vec<Field> = Vec::new();
    let mut k: usize = 0;
    while k < n
        invariant
            n == s.len(),
            k <= n,
            list@ == s.skip(k as int),
            nv == strings_view(names@),
            out@ == not_in(s.take(k as int), nv),
        decreases n - k,
    {
        let f = list.remove(0);
        assert(f == s[k as int]);
        assert(s.take(k + 1).drop_last() =~= s.take(k as int));
        assert(s.take(k + 1).last() == s[k as int]);
        if !names_contain(&names, f.info().name.as_str()) {
            out.push(f);
        }
        assert(list@ =~= s.skip(k + 1));
        k += 1;
    }
    assert(s.take(n as int) =~= s);
    out.push(Field::Single(merged));
    proof {
        assert(out@.drop_last() =~= not_in(s, nv));
    }
    reg.fields = Some(out);
    Ok(())
}

/// Adding fields never makes the merged width smaller.
proof fn lemma_merged_width_grows(s: Seq<Field>, names: Seq<Seq<char>>, i: int)
    requires
        0 <= i <= s.len(),
    ensures
        merged_width(s.take(i), names) <= merged_width(s, names),
    decreases s.len() - i,
{
    if i < s.len() {
        lemma_merged_width_grows(s, names, i + 1);
        assert(s.take(i + 1).drop_last() =~= s.take(i));
    } else {
        assert(s.take(i) =~= s);
    }
}

// ---------------------------------------------------------------------------
// Modifying fields
// ---------------------------------------------------------------------------

/// The write constraint that a value of a patch file gives: `none` removes
/// it, `enum` allows the enumerated values only, a list of two integers
/// gives a range; `None` for any other value.
pub open spec fn wc_of_value(y: YamlValue) -> Option<Option<WriteConstraint>> {
    match y {
        YamlValue::String(t) => if t@ == "none"@ {
            Some(None)
        } else if t@ == "enum"@ {
            Some(Some(WriteConstraint::UseEnumeratedValues(true)))
        } else {
            None
        },
        YamlValue::Array(a) => match range_of(a@) {
            Some(c) => Some(Some(WriteConstraint::Range(c))),
            None => None,
        },
        _ => None,
    }
}

/// The value under `_write_constraint`, else under `writeConstraint`.
pub open spec fn wc_entry(h: Seq<(YamlValue, YamlValue)>) -> Option<YamlValue> {
    match get_key_spec(h, "_write_constraint"@) {
        Some(v) => Some(v),
        None => get_key_spec(h, "writeConstraint"@),
    }
}

/// `m` with the values that the mapping `h` of a patch file sets: name,
/// description (an empty one counting as none), bit offset and width, and
/// access.
pub open spec fn patched_field(m: crate::field::FieldInfoModel, h: Seq<(YamlValue, YamlValue)>) -> crate::field::FieldInfoModel {
    let o = key_number(h, "bitOffset"@);
    let w = key_number(h, "bitWidth"@);
    crate::field::FieldInfoModel {
        name: match key_text(h, "name"@) {
            Some(n) => n,
            None => m.name,
        },
        description: match key_text(h, "description"@) {
            Some(d) => nonempty_chars(Some(d)),
            None => m.description,
        },
        bit_range: match (o, w) {
            (Some(a), Some(b)) => BitRange::offset_width_spec(a as u32, b as u32),
            (Some(a), None) => BitRange { offset: a as u32, ..m.bit_range },
            (None, Some(b)) => BitRange { width: b as u32, ..m.bit_range },
            (None, None) => m.bit_range,
        },
        access: match key_access(h, "access"@) {
            Some(a) => Some(a),
            None => m.access,
        },
        ..m
    }
}

/// Field `f` once modified by the mapping `h`: its write constraint set as
/// the mapping says, then the values of [`patched_field`].
pub open spec fn modified_model(f: Field, h: Seq<(YamlValue, YamlValue)>) -> crate::field::FieldInfoModel {
    let m = f.info_spec()@;
    let with_wc = match wc_entry(h) {
        Some(v) => crate::field::FieldInfoModel { write_constraint: wc_of_value(v)->0, ..m },
        None => m,
    };
    patched_field(with_wc, h)
}

/// `g` is `f` modified by the mapping `h` where `fspec` matches it.
pub open spec fn field_modified(f: Field, g: Field, fspec: Seq<char>, h: Seq<(YamlValue, YamlValue)>) -> bool {
    if field_matches(f, fspec) {
        same_kind(f, g) && g.info_spec()@ == modified_model(f, h)
    } else {
        g == f
    }
}

/// The write constraint of the mapping, read.
fn read_wc(h: &Vec<(YamlValue, YamlValue)>) -> (r: Option<Option<Option<WriteConstraint>>>)
    ensures
        match wc_entry(h@) {
            Some(v) => r == Some(wc_of_value(v)),
            None => r is None,
        },
{
    proof {
        reveal_strlit("_write_constraint");
        reveal_strlit("writeConstraint");
        reveal_strlit("none");
        reveal_strlit("enum");
    }
    let v = match get_key(h, "_write_constraint") {
        Some(v) => v,
        None => match get_key(h, "writeConstraint") {
            Some(v) => v,
            None => return None,
        },
    };
    match v {
        YamlValue::String(t) => {
            if str_eq(t.as_str(), "none") {
                Some(Some(None))
            } else if str_eq(t.as_str(), "enum") {
                Some(Some(Some(WriteConstraint::UseEnumeratedValues(true))))
            } else {
                Some(None)
            }
        },
        YamlValue::Array(a) => match read_range(a) {
            Some(c) => Some(Some(Some(WriteConstraint::Range(c)))),
            None => Some(None),
        },
        _ => Some(None),
    }
}

/// Modify fspec inside rtag according to fmod: each field that `fspec`
/// matches gets the write constraint of the mapping and the values of
/// [`patched_field`] (see [`modified_model`]). Fails when a name cannot be
/// tested, the write constraint of the mapping cannot be read while some
/// field matches, or a modified field is not valid; the register is then
/// left in an unspecified state.
pub fn modify_field(reg: &mut RegisterInfo, fspec: &str, fmod: &Vec<(YamlValue, YamlValue)>) -> (r: Result<(), PatchError>)
    ensures
        ({
            let s = fields_of(old(reg).fields);
            r is Ok <==> field_names_testable(s, fspec@) && (some_field_matches(s, fspec@) ==> (wc_entry(fmod@) is Some
                ==> wc_of_value(wc_entry(fmod@)->0) is Some)) && forall|i: int|
                0 <= i < s.len() && field_matches(#[trigger] s[i], fspec@) ==> modified_model(s[i], fmod@).validate_spec(
                    VAL_LVL,
                    Ok(()),
                )
        }),
        r is Ok ==> each_field(*old(reg), *final(reg), |f: Field, g: Field| field_modified(f, g, fspec@, fmod@)),
{
    let ghost s = fields_of(reg.fields);
    match scan_fields(reg.fields(), fspec) {
        Err(e) => return Err(e),
        Ok(_) => {},
    }
    let wc = read_wc(fmod);
    proof {
        reveal_strlit("bitOffset");
        reveal_strlit("bitWidth");
        reveal_strlit("description");
        reveal_strlit("access");
        reveal_strlit("name");
    }
    if let Some(fields) = &mut reg.fields {
        let n = fields.len();
        let mut i: usize = 0;
        while i < n
            invariant
                n == s.len(),
                n == fields@.len(),
                i <= n,
                s == fields_of(old(reg).fields),
                field_names_testable(s, fspec@),
                match wc_entry(fmod@) {
                    Some(v) => wc == Some(wc_of_value(v)),
                    None => wc is None,
                },
                forall|j: int| i <= j < n ==> fields@[j] == s[j],
                forall|j: int| 0 <= j < i ==> field_modified(s[j], #[trigger] fields@[j], fspec@, fmod@),
                forall|j: int|
                    0 <= j < i && field_matches(#[trigger] s[j], fspec@) ==> modified_model(s[j], fmod@).validate_spec(
                        VAL_LVL,
                        Ok(()),
                    ) && (wc_entry(fmod@) is Some ==> wc_of_value(wc_entry(fmod@)->0) is Some),
            decreases n - i,
        {
            assert(matchname_spec(s[i as int].info_spec().name@, fspec@) is Some);
            let f = &mut fields[i];
            if matchname(f.info().name.as_str(), fspec) {
                let info = f.info_mut();
                match wc {
                    Some(Some(c)) => {
                        info.write_constraint = c;
                    },
                    Some(None) => {
                        return Err(PatchError::Value(owned(fspec)));
                    },
                    None => {},
                }
                let b = make_field(fmod);
                match info.modify_from(b, VAL_LVL) {
                    Ok(()) => {},
                    Err(e) => {
                        return Err(PatchError::Invalid(e));
                    },
                }
            }
            i += 1;
        }
    }
    Ok(())
}

} // verus!
