//! Collecting the fields of a register that a pattern matches into an
//! array of fields.
use vstd::prelude::*;

use crate::field::{clone_opt, opt_chars};
use crate::patch::error::PatchError;
use crate::patch::make::{key_text, VAL_LVL};
use crate::patch::names::{
    check_offsets, checked_matchname, evenly_spaced, gap, left_token, matchname, matchname_spec, offsets_ordered_while_even,
    right_token, spec_tokens,
};
use crate::patch::register::{field_matches, qualified};
use crate::patch::yaml::{get_key, get_key_spec, get_str, YamlValue};
use crate::register::fields_of;
use crate::array::{expand_name, lemma_expand_plain};
use crate::text::{
    check_split, concat, decimal, drop_bytes, lemma_replace_absent, lemma_replace_at, lemma_replace_skip,
    lemma_utf8_concat, owned, replace_spec, replace_str, splits_at, str_eq, strings_view, take_bytes, usize_to_string,
    utf8,
};
use crate::{DimElement, Field, FieldInfo, RegisterInfo};
use vstd::string::StringSliceAdditionalSpecFns;

verus! {

/// `f` is a single field that `spec` matches.
pub open spec fn single_match(f: Field, spec: Seq<char>) -> bool {
    f is Single && field_matches(f, spec)
}

/// The name of every single field of `s` can be tested against `spec`.
pub open spec fn singles_testable(s: Seq<Field>, spec: Seq<char>) -> bool {
    forall|i: int|
        0 <= i < s.len() && (#[trigger] s[i]) is Single ==> matchname_spec(s[i].info_spec().name@, spec) is Some
}

/// The single fields of `s` that `spec` matches, in order.
pub open spec fn single_matches(s: Seq<Field>, spec: Seq<char>) -> Seq<FieldInfo>
    decreases s.len(),
{
    if s.len() == 0 {
        Seq::empty()
    } else if single_match(s.last(), spec) {
        single_matches(s.drop_last(), spec).push(s.last().info_spec())
    } else {
        single_matches(s.drop_last(), spec)
    }
}

/// The fields of `s` but the single ones that `spec` matches, in order.
pub open spec fn other_fields(s: Seq<Field>, spec: Seq<char>) -> Seq<Field>
    decreases s.len(),
{
    if s.len() == 0 {
        s
    } else if single_match(s.last(), spec) {
        other_fields(s.drop_last(), spec)
    } else {
        other_fields(s.drop_last(), spec).push(s.last())
    }
}

/// `k` is the position of the first single field of `s` that `spec`
/// matches.
pub open spec fn is_first_single(s: Seq<Field>, spec: Seq<char>, k: int) -> bool {
    &&& 0 <= k < s.len()
    &&& single_match(s[k], spec)
    &&& forall|j: int| 0 <= j < k ==> !single_match(#[trigger] s[j], spec)
}

/// The position of the first single field of `s` that `spec` matches.
pub open spec fn first_single_at(s: Seq<Field>, spec: Seq<char>) -> int {
    choose|k: int| is_first_single(s, spec, k)
}

/// `x` inserted into `s` after the last field whose offset is not above
/// its own (stable insertion).
pub open spec fn insert_by_offset(s: Seq<FieldInfo>, x: FieldInfo) -> Seq<FieldInfo>
    decreases s.len(),
{
    if s.len() == 0 || s.last().bit_range.offset <= x.bit_range.offset {
        s.push(x)
    } else {
        insert_by_offset(s.drop_last(), x).push(s.last())
    }
}

/// `s` sorted by bit offset, fields of equal offset keeping their order.
pub open spec fn sort_by_offset(s: Seq<FieldInfo>) -> Seq<FieldInfo>
    decreases s.len(),
{
    if s.len() == 0 {
        s
    } else {
        insert_by_offset(sort_by_offset(s.drop_last()), s.last())
    }
}

/// The offsets of `s` never decrease.
pub open spec fn sorted_by_offset(s: Seq<FieldInfo>) -> bool {
    forall|i: int, j: int| 0 <= i <= j < s.len() ==> s[i].bit_range.offset <= s[j].bit_range.offset
}

/// The bit offsets of `s`.
pub open spec fn offsets_of(s: Seq<FieldInfo>) -> Seq<u32> {
    Seq::new(s.len(), |i: int| s[i].bit_range.offset)
}

/// The distance between the first two fields of `s` (0 for fewer).
pub open spec fn increment_of(s: Seq<FieldInfo>) -> u32 {
    if s.len() > 1 {
        (s[1].bit_range.offset - s[0].bit_range.offset) as u32
    } else {
        0
    }
}

proof fn lemma_insert_at(s: Seq<FieldInfo>, x: FieldInfo, p: int)
    requires
        0 <= p <= s.len(),
        forall|j: int| p <= j < s.len() ==> s[j].bit_range.offset > x.bit_range.offset,
        p == 0 || s[p - 1].bit_range.offset <= x.bit_range.offset,
    ensures
        insert_by_offset(s, x) == s.take(p).push(x) + s.skip(p),
    decreases s.len(),
{
    if s.len() == 0 {
        assert(s.take(p).push(x) + s.skip(p) =~= s.push(x));
    } else if s.last().bit_range.offset <= x.bit_range.offset {
        assert(p == s.len());
        assert(s.take(p).push(x) + s.skip(p) =~= s.push(x));
    } else {
        let d = s.drop_last();
        assert(p < s.len());
        lemma_insert_at(d, x, p);
        assert(d.take(p).push(x) + d.skip(p) + seq![s.last()] =~= s.take(p).push(x) + s.skip(p));
        assert(insert_by_offset(s, x) == insert_by_offset(d, x).push(s.last()));
        assert(insert_by_offset(d, x).push(s.last()) =~= d.take(p).push(x) + d.skip(p) + seq![s.last()]);
    }
}

proof fn lemma_insert_sorted(s: Seq<FieldInfo>, x: FieldInfo)
    requires
        sorted_by_offset(s),
    ensures
        sorted_by_offset(insert_by_offset(s, x)),
        insert_by_offset(s, x).len() == s.len() + 1,
    decreases s.len(),
{
    if s.len() == 0 || s.last().bit_range.offset <= x.bit_range.offset {
    } else {
        let d = s.drop_last();
        lemma_insert_sorted(d, x);
        let t = insert_by_offset(d, x);
        assert forall|i: int| 0 <= i < t.len() implies t[i].bit_range.offset <= s.last().bit_range.offset by {
            lemma_insert_members(d, x, i);
        }
    }
}

/// Each member of an insertion is `x` or a member of `s`.
proof fn lemma_insert_members(s: Seq<FieldInfo>, x: FieldInfo, i: int)
    requires
        0 <= i < insert_by_offset(s, x).len(),
    ensures
        insert_by_offset(s, x)[i] == x || exists|j: int| 0 <= j < s.len() && insert_by_offset(s, x)[i] == s[j],
    decreases s.len(),
{
    if s.len() == 0 || s.last().bit_range.offset <= x.bit_range.offset {
        if i < s.len() {
            assert(insert_by_offset(s, x)[i] == s[i]);
        }
    } else {
        let d = s.drop_last();
        lemma_insert_len(d, x);
        if i < d.len() + 1 {
            lemma_insert_members(d, x, i);
            if insert_by_offset(d, x)[i] != x {
                let j = choose|j: int| 0 <= j < d.len() && insert_by_offset(d, x)[i] == d[j];
                assert(s[j] == d[j]);
            }
        } else {
            assert(insert_by_offset(s, x)[i] == s[s.len() - 1]);
        }
    }
}

proof fn lemma_insert_len(s: Seq<FieldInfo>, x: FieldInfo)
    ensures
        insert_by_offset(s, x).len() == s.len() + 1,
    decreases s.len(),
{
    if s.len() > 0 && s.last().bit_range.offset > x.bit_range.offset {
        lemma_insert_len(s.drop_last(), x);
    }
}

/// Sorting keeps the number of fields and orders them.
pub proof fn lemma_sort_sorted(s: Seq<FieldInfo>)
    ensures
        sorted_by_offset(sort_by_offset(s)),
        sort_by_offset(s).len() == s.len(),
    decreases s.len(),
{
    if s.len() > 0 {
        lemma_sort_sorted(s.drop_last());
        lemma_insert_sorted(sort_by_offset(s.drop_last()), s.last());
    }
}

/// `v` sorted by bit offset (see [`sort_by_offset`]).
fn sort_infos(v: Vec<FieldInfo>) -> (r: Vec<FieldInfo>)
    ensures
        r@ == sort_by_offset(v@),
        sorted_by_offset(r@),
{
    let mut list = v;
    let ghost s = list@;
    let n = list.len();
    let mut out: Vec<FieldInfo> = Vec::new();
    let mut i: usize = 0;
    while i < n
        invariant
            n == s.len(),
            i <= n,
            list@ == s.skip(i as int),
            out@ == sort_by_offset(s.take(i as int)),
        decreases n - i,
    {
        let x = list.remove(0);
        assert(x == s[i as int]);
        assert(s.take(i + 1).drop_last() =~= s.take(i as int));
        assert(s.take(i + 1).last() == s[i as int]);
        let mut p = out.len();
        while p > 0 && out[p - 1].bit_range.offset > x.bit_range.offset
            invariant
                p <= out@.len(),
                forall|j: int| p <= j < out@.len() ==> out@[j].bit_range.offset > x.bit_range.offset,
            decreases p,
        {
            p -= 1;
        }
        proof {
            lemma_insert_at(out@, x, p as int);
        }
        let ghost before = out@;
        out.insert(p, x);
        assert(out@ =~= before.take(p as int).push(x) + before.skip(p as int));
        assert(list@ =~= s.skip(i + 1));
        i += 1;
    }
    assert(s.take(n as int) =~= s);
    proof {
        lemma_sort_sorted(s);
    }
    out
}

/// Whether some single field of `fs` matches `fspec`; an error when the name
/// of a single field cannot be tested against it.
fn scan_singles(fs: &[Field], fspec: &str) -> (r: Result<bool, PatchError>)
    ensures
        r is Err <==> !singles_testable(fs@, fspec@),
        r matches Ok(b) ==> (b <==> single_matches(fs@, fspec@).len() > 0),
{
    let mut found = false;
    let mut i: usize = 0;
    while i < fs.len()
        invariant
            i <= fs@.len(),
            singles_testable(fs@.take(i as int), fspec@),
            found <==> single_matches(fs@.take(i as int), fspec@).len() > 0,
        decreases fs@.len() - i,
    {
        let ghost t = fs@.take(i + 1);
        assert(t.drop_last() =~= fs@.take(i as int));
        assert(t.last() == fs@[i as int]);
        assert forall|j: int| 0 <= j < i implies t[j] == #[trigger] fs@.take(i as int)[j] by {}
        if fs[i].is_single() {
            match checked_matchname(fs[i].info().name.as_str(), fspec) {
                None => {
                    assert(!singles_testable(fs@, fspec@)) by {
                        assert(fs@[i as int] is Single);
                    }
                    return Err(PatchError::InvalidGlob(owned(fspec)));
                },
                Some(m) => {
                    found = found || m;
                },
            }
        }
        i += 1;
    }
    assert(fs@.take(fs@.len() as int) =~= fs@);
    Ok(found)
}

/// Parts `v` into the fields that stay, the single fields that `fspec`
/// matches (by their information), and the position of the first of them.
fn split_singles(v: Vec<Field>, fspec: &str) -> (r: (Vec<Field>, Vec<FieldInfo>, usize))
    requires
        singles_testable(v@, fspec@),
        single_matches(v@, fspec@).len() > 0,
    ensures
        r.0@ == other_fields(v@, fspec@),
        r.1@ == single_matches(v@, fspec@),
        r.2 == first_single_at(v@, fspec@),
        r.2 <= r.0@.len(),
{
    let mut list = v;
    let ghost s = list@;
    let n = list.len();
    let mut rest: Vec<Field> = Vec::new();
    let mut matched: Vec<FieldInfo> = Vec::new();
    let mut place: usize = 0;
    let mut i: usize = 0;
    while i < n
        invariant
            n == s.len(),
            i <= n,
            list@ == s.skip(i as int),
            singles_testable(s, fspec@),
            rest@ == other_fields(s.take(i as int), fspec@),
            matched@ == single_matches(s.take(i as int), fspec@),
            matched@.len() == 0 ==> place == rest@.len() && forall|j: int| 0 <= j < i ==> !single_match(#[trigger] s[j], fspec@),
            matched@.len() > 0 ==> is_first_single(s, fspec@, place as int) && place <= rest@.len(),
        decreases n - i,
    {
        let f = list.remove(0);
        assert(f == s[i as int]);
        let ghost t = s.take(i + 1);
        assert(t.drop_last() =~= s.take(i as int));
        assert(t.last() == s[i as int]);
        let single = f.is_single();
        let m = if single {
            assert(matchname_spec(s[i as int].info_spec().name@, fspec@) is Some);
            matchname(f.info().name.as_str(), fspec)
        } else {
            false
        };
        if m {
            if matched.len() == 0 {
                place = i;
                assert(rest@.len() == i) by {
                    lemma_other_len(s, fspec@, i as int);
                }
            }
            match f {
                Field::Single(info) => {
                    matched.push(info);
                },
                Field::Array(info, _) => {
                    assert(false);
                },
            }
        } else {
            rest.push(f);
            if matched.len() == 0 {
                place = rest.len();
            }
        }
        assert(list@ =~= s.skip(i + 1));
        i += 1;
    }
    assert(s.take(n as int) =~= s);
    proof {
        let k = first_single_at(s, fspec@);
        assert(is_first_single(s, fspec@, k));
        if k < place {
            assert(!single_match(s[k], fspec@));
        }
        if place < k {
            assert(!single_match(s[place as int], fspec@));
        }
    }
    (rest, matched, place)
}

/// Before the first match, every field stays.
proof fn lemma_other_len(s: Seq<Field>, spec: Seq<char>, i: int)
    requires
        0 <= i <= s.len(),
        forall|j: int| 0 <= j < i ==> !single_match(#[trigger] s[j], spec),
    ensures
        other_fields(s.take(i), spec).len() == i,
    decreases i,
{
    if i > 0 {
        assert(s.take(i).drop_last() =~= s.take(i - 1));
        assert(s.take(i).last() == s[i - 1]);
        lemma_other_len(s, spec, i - 1);
    }
}

/// `name` can lose `li` bytes at its start and `ri` at its end, each cut at
/// a character boundary.
pub open spec fn cut_ok(name: Seq<char>, li: int, ri: int) -> bool {
    let b = utf8(name);
    &&& 0 <= ri <= b.len()
    &&& 0 <= li <= b.len() - ri
    &&& vstd::utf8::is_char_boundary(b, b.len() - ri)
    &&& vstd::utf8::is_char_boundary(b.take(b.len() - ri), li)
}

/// `idx` is `name` without its first `li` and last `ri` bytes.
pub open spec fn cut_of(name: Seq<char>, li: int, ri: int, idx: Seq<char>) -> bool {
    utf8(idx) == utf8(name).subrange(li, utf8(name).len() - ri)
}

/// Index `j` of an array of `fields` is `t` (see [`indices_ok`]).
pub open spec fn index_ok(fields: Seq<FieldInfo>, zero: bool, li: int, ri: int, j: int, t: Seq<char>) -> bool {
    if zero {
        t == decimal(j as nat)
    } else {
        cut_of(fields[j].name@, li, ri, t)
    }
}

/// The index texts of an array of `fields`: `0`, `1`, ... when `zero`,
/// else each name cut down to its enumeration token.
pub open spec fn indices_ok(fields: Seq<FieldInfo>, zero: bool, li: int, ri: int, idx: Seq<Seq<char>>) -> bool {
    &&& idx.len() == fields.len()
    &&& forall|i: int| 0 <= i < idx.len() ==> index_ok(fields, zero, li, ri, i, #[trigger] idx[i])
}

/// Each name of `fields` can be cut down to its enumeration token.
pub open spec fn cuts_ok(fields: Seq<FieldInfo>, li: int, ri: int) -> bool {
    forall|i: int| 0 <= i < fields.len() ==> cut_ok(#[trigger] fields[i].name@, li, ri)
}

/// The pattern can be cut around its enumeration token (needed where the
/// mapping gives no name).
pub open spec fn pattern_cut_ok(fmod: Seq<(YamlValue, YamlValue)>, fspec: Seq<char>, li: int, ri: int) -> bool {
    key_text(fmod, "name"@) is Some || (splits_at(fspec, li) && splits_at(fspec, utf8(fspec).len() - ri))
}

/// `name` is the name of the array: the one the mapping gives, else the
/// pattern with its enumeration token replaced by `%s`.
pub open spec fn array_name_ok(fmod: Seq<(YamlValue, YamlValue)>, fspec: Seq<char>, li: int, ri: int, name: Seq<char>) -> bool {
    match key_text(fmod, "name"@) {
        Some(n) => name == n,
        None => utf8(name) == utf8(fspec).take(li) + utf8("%s"@) + utf8(fspec).skip(utf8(fspec).len() - ri),
    }
}

/// `desc` is the description of the array: that of its first field, with
/// each `0` replaced by `%s` when the first index is `0`.
pub open spec fn array_description(first: Option<Seq<char>>, idx: Seq<Seq<char>>, desc: Option<Seq<char>>) -> bool {
    if idx.len() > 0 && idx[0] == "0"@ {
        desc == match first {
            Some(d) => Some(replace_spec(d, "0"@, "%s"@)),
            None => None,
        }
    } else {
        desc == first
    }
}

/// Where the first index of a collected array is `0`, its description
/// takes the place of the index: a first description `x0y` (with no other
/// `0` and no `%`) becomes `x%sy`, and expanding it for the index `i` gives
/// `xiy`, naming the element's own index.
pub proof fn lemma_array_description_names_index(
    x: Seq<char>,
    y: Seq<char>,
    idx: Seq<Seq<char>>,
    desc: Option<Seq<char>>,
    i: Seq<char>,
)
    requires
        !x.contains('0'),
        !x.contains('%'),
        !y.contains('0'),
        !y.contains('%'),
        !i.contains('%'),
        x.len() == 0 || x.last() != '[',
        idx.len() > 0,
        idx[0] == "0"@,
        array_description(Some(x + "0"@ + y), idx, desc),
    ensures
        desc == Some(x + "%s"@ + y),
        expand_name(desc->0, i) == x + i + y,
{
    reveal_strlit("0");
    reveal_strlit("%s");
    let z = "0"@;
    let t = z + y;
    assert(x + z + y =~= x + t);
    assert forall|k: int| 0 <= k < x.len() && k + z.len() <= x.len() + t.len() implies !((x + t).skip(k).take(
        z.len() as int,
    ) =~= z) by {
        if (x + t).skip(k).take(z.len() as int) =~= z {
            let w = (x + t).skip(k).take(z.len() as int);
            assert(w[0] == z[0]);
            assert(w[0] == (x + t)[k]);
            assert(x[k] == '0');
        }
    }
    lemma_replace_skip(x, t, z, "%s"@);
    lemma_replace_at(y, z, "%s"@);
    lemma_replace_absent(y, z, "%s"@, '0');
    assert(x + ("%s"@ + y) =~= x + "%s"@ + y);
    lemma_expand_plain(x, y, i);
}

/// The index texts of an array of `fields` (see [`indices_ok`]); `None`
/// where a name cannot be cut.
fn index_texts(fields: &Vec<FieldInfo>, zero: bool, li: usize, ri: usize) -> (r: Option<Vec<String>>)
    ensures
        r is Some <==> (zero || cuts_ok(fields@, li as int, ri as int)),
        r matches Some(v) ==> indices_ok(fields@, zero, li as int, ri as int, strings_view(v@)),
{
    let mut out: Vec<String> = Vec::new();
    let mut i: usize = 0;
    while i < fields.len()
        invariant
            i <= fields@.len(),
            out@.len() == i,
            !zero ==> forall|j: int| 0 <= j < i ==> cut_ok(#[trigger] fields@[j].name@, li as int, ri as int),
            forall|j: int|
                0 <= j < i ==> index_ok(fields@, zero, li as int, ri as int, j, #[trigger] strings_view(out@)[j]),
        decreases fields@.len() - i,
    {
        let ghost before = out@;
        if zero {
            out.push(usize_to_string(i));
            assert(strings_view(out@)[i as int] == decimal(i as nat));
        } else {
            let name = fields[i].name.as_str();
            let n = name.as_bytes().len();
            if !(ri <= n && li <= n - ri && check_split(name, n - ri)) {
                return None;
            }
            let front = take_bytes(name, n - ri);
            if !check_split(front.as_str(), li) {
                return None;
            }
            out.push(drop_bytes(front.as_str(), li));
            assert(utf8(name@).take(n - ri).skip(li as int) =~= utf8(name@).subrange(li as int, n - ri));
            assert(cut_of(fields@[i as int].name@, li as int, ri as int, strings_view(out@)[i as int]));
        }
        assert forall|j: int| 0 <= j < i + 1 implies index_ok(
            fields@,
            zero,
            li as int,
            ri as int,
            j,
            #[trigger] strings_view(out@)[j],
        ) by {
            if j < i {
                assert(strings_view(out@)[j] == strings_view(before)[j]);
            }
        }
        i += 1;
    }
    Some(out)
}

/// The bit offsets of `fields`.
fn offsets(fields: &Vec<FieldInfo>) -> (r: Vec<u32>)
    ensures
        r@ == offsets_of(fields@),
{
    let mut out: Vec<u32> = Vec::new();
    let mut i: usize = 0;
    while i < fields.len()
        invariant
            i <= fields@.len(),
            out@ == offsets_of(fields@.take(i as int)),
        decreases fields@.len() - i,
    {
        out.push(fields[i].bit_range.offset);
        i += 1;
        assert(out@ =~= offsets_of(fields@.take(i as int)));
    }
    assert(fields@.take(fields@.len() as int) =~= fields@);
    out
}

/// Collect same fields in peripheral into register array: the single fields
/// that `fspec` matches, sorted by offset, become one array field in the
/// place of the first of them. Its information is that of the field with
/// the lowest offset, under the name of [`array_name_ok`] and the
/// description of [`array_description`]; its dimensions count the fields,
/// step by the distance of the first two, and are indexed as
/// [`indices_ok`] says (from zero when the mapping has the key
/// `_start_from_zero`). Fails when `fspec` has no enumeration token, a name
/// cannot be tested, no field matches, a name cannot be cut, the offsets are
/// not evenly spaced, or the pattern cannot be cut; the register is then
/// left in an unspecified state. A register without fields is left as it
/// is.
pub fn collect_fields_in_array(reg: &mut RegisterInfo, fspec: &str, fmod: &Vec<(YamlValue, YamlValue)>) -> (r: Result<
    (),
    PatchError,
>)
    ensures
        old(reg).fields is None ==> r is Ok && *final(reg) == *old(reg),
        old(reg).fields is Some ==> ({
            let s = fields_of(old(reg).fields);
            let b = utf8(fspec@);
            let li = left_token(b)->0;
            let ri = right_token(b)->0;
            let sorted = sort_by_offset(single_matches(s, fspec@));
            let zero = get_key_spec(fmod@, "_start_from_zero"@) is Some;
            r is Ok <==> left_token(b) is Some && right_token(b) is Some && singles_testable(s, fspec@)
                && single_matches(s, fspec@).len() > 0 && (zero || cuts_ok(sorted, li, ri)) && evenly_spaced(
                offsets_of(sorted),
                increment_of(sorted),
            ) && pattern_cut_ok(fmod@, fspec@, li, ri)
        }),
        old(reg).fields is Some && r is Ok ==> ({
            let s = fields_of(old(reg).fields);
            let b = utf8(fspec@);
            let li = left_token(b)->0;
            let ri = right_token(b)->0;
            let sorted = sort_by_offset(single_matches(s, fspec@));
            let zero = get_key_spec(fmod@, "_start_from_zero"@) is Some;
            let other = other_fields(s, fspec@);
            let p = first_single_at(s, fspec@);
            let t = fields_of(final(reg).fields);
            &&& final(reg).fields is Some
            &&& t.len() == other.len() + 1
            &&& t.take(p) == other.take(p)
            &&& t.skip(p + 1) == other.skip(p)
            &&& t[p] matches Field::Array(g, d) && {
                &&& g == (FieldInfo { name: g.name, description: g.description, ..sorted[0] })
                &&& array_name_ok(fmod@, fspec@, li, ri, g.name@)
                &&& d@.dim == sorted.len() as u32
                &&& d@.dim_increment == increment_of(sorted)
                &&& d@.dim_index matches Some(idx) && indices_ok(sorted, zero, li, ri, idx) && array_description(
                    opt_chars(sorted[0].description),
                    idx,
                    opt_chars(g.description),
                )
                &&& d@.dim_name is None
                &&& d@.dim_array_index is None
            }
            &&& *final(reg) == (RegisterInfo { fields: final(reg).fields, ..*old(reg) })
        }),
{
    if reg.fields.is_none() {
        return Ok(());
    }
    let ghost s = fields_of(reg.fields);
    let (li, ri) = match spec_tokens(fspec) {
        Some(p) => p,
        None => return Err(PatchError::Value(owned(fspec))),
    };
    match scan_singles(reg.fields(), fspec) {
        Err(e) => return Err(e),
        Ok(false) => return Err(PatchError::NotFound(qualified(reg.name.as_str(), fspec))),
        Ok(true) => {},
    }
    let v = match reg.fields.take() {
        Some(v) => v,
        None => Vec::new(),
    };
    let (rest, matched, place) = split_singles(v, fspec);
    let sorted = sort_infos(matched);
    proof {
        lemma_sort_sorted(single_matches(s, fspec@));
    }
    let dim = sorted.len();
    proof {
        reveal_strlit("_start_from_zero");
        reveal_strlit("name");
        reveal_strlit("%s");
        reveal_strlit("0");
    }
    let zero = get_key(fmod, "_start_from_zero").is_some();
    let idx = match index_texts(&sorted, zero, li, ri) {
        Some(v) => v,
        None => return Err(PatchError::Value(qualified(reg.name.as_str(), fspec))),
    };
    let offs = offsets(&sorted);
    let inc: u32 = if dim > 1 {
        offs[1] - offs[0]
    } else {
        0
    };
    assert(inc == increment_of(sorted@));
    assert(offsets_ordered_while_even(offs@, inc)) by {
        assert forall|i: int| 0 <= i < offs@.len() - 1 implies #[trigger] offs@[i] <= offs@[i + 1] by {
            assert(sorted@[i].bit_range.offset <= sorted@[i + 1].bit_range.offset);
        }
    }
    if !check_offsets(offs.as_slice(), inc) {
        return Err(PatchError::Collect(qualified(reg.name.as_str(), fspec)));
    }
    let name = match get_str(fmod, "name") {
        Some(n) => owned(n),
        None => {
            let n = fspec.as_bytes().len();
            if !(check_split(fspec, li) && check_split(fspec, n - ri)) {
                return Err(PatchError::Value(owned(fspec)));
            }
            let front = take_bytes(fspec, li);
            let back = drop_bytes(fspec, n - ri);
            let mid = concat(front.as_str(), "%s");
            let whole = concat(mid.as_str(), back.as_str());
            proof {
                lemma_utf8_concat(front@, "%s"@);
                lemma_utf8_concat(mid@, back@);
            }
            whole
        },
    };
    let mut sorted = sorted;
    let first = sorted.remove(0);
    let ghost first_s = first;
    assert(first == sort_by_offset(single_matches(s, fspec@))[0]);
    let description = if str_eq(idx[0].as_str(), "0") {
        match &first.description {
            Some(d) => Some(replace_str(d.as_str(), "0", "%s")),
            None => None,
        }
    } else {
        clone_opt(&first.description)
    };
    assert(strings_view(idx@)[0] == idx@[0]@);
    let info = FieldInfo { name, description, ..first };
    let ghost idx_s = strings_view(idx@);
    let d = match DimElement::builder().dim(dim as u32).dim_increment(inc).dim_index(Some(idx)).build(VAL_LVL) {
        Ok(d) => d,
        Err(e) => {
            assert(false);
            return Err(PatchError::Invalid(e));
        },
    };
    let mut rest = rest;
    let ghost other = rest@;
    rest.insert(place, Field::Array(info, d));
    proof {
        assert(rest@.take(place as int) =~= other.take(place as int));
        assert(rest@.skip(place + 1) =~= other.skip(place as int));
    }
    reg.fields = Some(rest);
    Ok(())
}

/// Index `j` of an array whose elements are named `names` is `t`: `j`
/// when `zero`, else the name cut down to its enumeration token.
pub open spec fn name_index_ok(names: Seq<Seq<char>>, zero: bool, li: int, ri: int, j: int, t: Seq<char>) -> bool {
    if zero {
        t == decimal(j as nat)
    } else {
        cut_of(names[j], li, ri, t)
    }
}

/// The index texts of an array whose elements are named `names`.
pub open spec fn name_indices_ok(names: Seq<Seq<char>>, zero: bool, li: int, ri: int, idx: Seq<Seq<char>>) -> bool {
    &&& idx.len() == names.len()
    &&& forall|i: int| 0 <= i < idx.len() ==> name_index_ok(names, zero, li, ri, i, #[trigger] idx[i])
}

/// Each of `names` can be cut down to its enumeration token.
pub open spec fn names_cut_ok(names: Seq<Seq<char>>, li: int, ri: int) -> bool {
    forall|i: int| 0 <= i < names.len() ==> cut_ok(#[trigger] names[i], li, ri)
}

/// The index texts of an array whose elements are named `names` (see
/// [`name_indices_ok`]); `None` where a name cannot be cut.
pub fn name_index_texts(names: &Vec<String>, zero: bool, li: usize, ri: usize) -> (r: Option<Vec<String>>)
    ensures
        r is Some <==> (zero || names_cut_ok(strings_view(names@), li as int, ri as int)),
        r matches Some(v) ==> name_indices_ok(strings_view(names@), zero, li as int, ri as int, strings_view(v@)),
{
    let ghost ns = strings_view(names@);
    let mut out: Vec<String> = Vec::new();
    let mut i: usize = 0;
    while i < names.len()
        invariant
            i <= names@.len(),
            ns == strings_view(names@),
            out@.len() == i,
            !zero ==> forall|j: int| 0 <= j < i ==> cut_ok(#[trigger] ns[j], li as int, ri as int),
            forall|j: int|
                0 <= j < i ==> name_index_ok(ns, zero, li as int, ri as int, j, #[trigger] strings_view(out@)[j]),
        decreases names@.len() - i,
    {
        let ghost before = out@;
        assert(ns[i as int] == names@[i as int]@);
        if zero {
            out.push(usize_to_string(i));
            assert(strings_view(out@)[i as int] == decimal(i as nat));
        } else {
            let name = names[i].as_str();
            let n = name.as_bytes().len();
            if !(ri <= n && li <= n - ri && check_split(name, n - ri)) {
                return None;
            }
            let front = take_bytes(name, n - ri);
            if !check_split(front.as_str(), li) {
                return None;
            }
            out.push(drop_bytes(front.as_str(), li));
            assert(utf8(name@).take(n - ri).skip(li as int) =~= utf8(name@).subrange(li as int, n - ri));
            assert(cut_of(ns[i as int], li as int, ri as int, strings_view(out@)[i as int]));
        }
        assert forall|j: int| 0 <= j < i + 1 implies name_index_ok(
            ns,
            zero,
            li as int,
            ri as int,
            j,
            #[trigger] strings_view(out@)[j],
        ) by {
            if j < i {
                assert(strings_view(out@)[j] == strings_view(before)[j]);
            }
        }
        i += 1;
    }
    Some(out)
}

/// The name of an array collected with the pattern `fspec` (see
/// [`array_name_ok`]); `None` where the pattern cannot be cut.
pub fn array_name(fmod: &Vec<(YamlValue, YamlValue)>, fspec: &str, li: usize, ri: usize) -> (r: Option<String>)
    requires
        ri < utf8(fspec@).len(),
    ensures
        r is Some <==> pattern_cut_ok(fmod@, fspec@, li as int, ri as int),
        r matches Some(n) ==> array_name_ok(fmod@, fspec@, li as int, ri as int, n@),
{
    proof {
        reveal_strlit("name");
        reveal_strlit("%s");
    }
    match get_str(fmod, "name") {
        Some(n) => Some(owned(n)),
        None => {
            let n = fspec.as_bytes().len();
            if !(check_split(fspec, li) && check_split(fspec, n - ri)) {
                return None;
            }
            let front = take_bytes(fspec, li);
            let back = drop_bytes(fspec, n - ri);
            let mid = concat(front.as_str(), "%s");
            let whole = concat(mid.as_str(), back.as_str());
            proof {
                lemma_utf8_concat(front@, "%s"@);
                lemma_utf8_concat(mid@, back@);
            }
            Some(whole)
        },
    }
}

} // verus!
