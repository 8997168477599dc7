//! Collecting the registers of a peripheral that a pattern matches into an
//! array of registers.
use vstd::prelude::*;

use crate::field::{bit_set, clone_opt, lemma_same_bits, opt_chars};
use crate::patch::collect::{
    array_description, array_name, array_name_ok, name_index_texts, name_indices_ok, names_cut_ok, pattern_cut_ok,
};
use crate::patch::error::PatchError;
use crate::patch::make::VAL_LVL;
use crate::patch::names::{
    check_offsets, checked_matchname, evenly_spaced, gap, left_token, matchname, matchname_spec, offsets_ordered_while_even,
    right_token, spec_tokens,
};
use crate::patch::process::{edits_applied, field_edits, field_edits_of, process};
use crate::patch::register::{bit_in_fields, fields_in_64_bits, qualified, RegisterInfoExt};
use crate::patch::yaml::{get_key, get_key_spec, YamlValue};
use crate::peripheral::elements_of;
use crate::register::fields_of;
use crate::text::{owned, replace_spec, replace_str, str_eq, strings_view, utf8};
use crate::{DimElement, PeripheralInfo, Register, RegisterCluster, RegisterInfo};

verus! {

/// The register that element `rc` holds, if it is a single register.
pub open spec fn single_register(rc: RegisterCluster) -> Option<RegisterInfo> {
    match rc {
        RegisterCluster::Register(b) => match *b {
            Register::Single(r) => Some(r),
            _ => None,
        },
        _ => None,
    }
}

/// Element `rc` is a single register that `spec` matches.
pub open spec fn single_reg_match(rc: RegisterCluster, spec: Seq<char>) -> bool {
    single_register(rc) matches Some(r) && matchname_spec(r.name@, spec) == Some(true)
}

/// The name of every single register among `s` can be tested against
/// `spec`.
pub open spec fn reg_singles_testable(s: Seq<RegisterCluster>, spec: Seq<char>) -> bool {
    forall|i: int|
        0 <= i < s.len() ==> (single_register(#[trigger] s[i]) matches Some(r) ==> matchname_spec(r.name@, spec) is Some)
}

/// The single registers among `s` that `spec` matches, in order.
pub open spec fn reg_single_matches(s: Seq<RegisterCluster>, spec: Seq<char>) -> Seq<RegisterInfo>
    decreases s.len(),
{
    if s.len() == 0 {
        Seq::empty()
    } else if single_reg_match(s.last(), spec) {
        reg_single_matches(s.drop_last(), spec).push(single_register(s.last())->0)
    } else {
        reg_single_matches(s.drop_last(), spec)
    }
}

/// The elements of `s` but the single registers that `spec` matches.
pub open spec fn other_elements(s: Seq<RegisterCluster>, spec: Seq<char>) -> Seq<RegisterCluster>
    decreases s.len(),
{
    if s.len() == 0 {
        s
    } else if single_reg_match(s.last(), spec) {
        other_elements(s.drop_last(), spec)
    } else {
        other_elements(s.drop_last(), spec).push(s.last())
    }
}

/// `k` is the position of the first single register among `s` that
/// `spec` matches.
pub open spec fn is_first_reg_single(s: Seq<RegisterCluster>, spec: Seq<char>, k: int) -> bool {
    &&& 0 <= k < s.len()
    &&& single_reg_match(s[k], spec)
    &&& forall|j: int| 0 <= j < k ==> !single_reg_match(#[trigger] s[j], spec)
}

/// The position of the first single register among `s` that `spec`
/// matches.
pub open spec fn first_reg_single_at(s: Seq<RegisterCluster>, spec: Seq<char>) -> int {
    choose|k: int| is_first_reg_single(s, spec, k)
}

/// `x` inserted into `s` after the last register whose address offset is
/// not above its own.
pub open spec fn insert_by_address(s: Seq<RegisterInfo>, x: RegisterInfo) -> Seq<RegisterInfo>
    decreases s.len(),
{
    if s.len() == 0 || s.last().address_offset <= x.address_offset {
        s.push(x)
    } else {
        insert_by_address(s.drop_last(), x).push(s.last())
    }
}

/// `s` sorted by address offset, registers of equal offset keeping their
/// order.
pub open spec fn sort_by_address(s: Seq<RegisterInfo>) -> Seq<RegisterInfo>
    decreases s.len(),
{
    if s.len() == 0 {
        s
    } else {
        insert_by_address(sort_by_address(s.drop_last()), s.last())
    }
}

/// The address offsets of `s` never decrease.
pub open spec fn sorted_by_address(s: Seq<RegisterInfo>) -> bool {
    forall|i: int, j: int| 0 <= i <= j < s.len() ==> s[i].address_offset <= s[j].address_offset
}

/// The address offsets of `s`.
pub open spec fn addresses_of(s: Seq<RegisterInfo>) -> Seq<u32> {
    Seq::new(s.len(), |i: int| s[i].address_offset)
}

/// The names of `s`.
pub open spec fn reg_names(s: Seq<RegisterInfo>) -> Seq<Seq<char>> {
    Seq::new(s.len(), |i: int| s[i].name@)
}

/// The distance between the first two registers of `s` (0 for fewer).
pub open spec fn address_increment(s: Seq<RegisterInfo>) -> u32 {
    if s.len() > 1 {
        (s[1].address_offset - s[0].address_offset) as u32
    } else {
        0
    }
}

/// The bits of a 64-bit register that the fields of `r` cover.
pub open spec fn covered_bits(r: RegisterInfo) -> Set<u64> {
    Set::new(|b: u64| b < 64 && bit_in_fields(fields_of(r.fields), b))
}

/// The fields of every register of `s` lie within 64 bits, and all cover
/// the same bits.
pub open spec fn same_coverage(s: Seq<RegisterInfo>) -> bool {
    &&& forall|i: int| 0 <= i < s.len() ==> fields_in_64_bits(fields_of((#[trigger] s[i]).fields))
    &&& forall|i: int| 0 <= i < s.len() ==> covered_bits(#[trigger] s[i]) == covered_bits(s[0])
}

proof fn lemma_insert_at(s: Seq<RegisterInfo>, x: RegisterInfo, p: int)
    requires
        0 <= p <= s.len(),
        forall|j: int| p <= j < s.len() ==> s[j].address_offset > x.address_offset,
        p == 0 || s[p - 1].address_offset <= x.address_offset,
    ensures
        insert_by_address(s, x) == s.take(p).push(x) + s.skip(p),
    decreases s.len(),
{
    if s.len() == 0 {
        assert(s.take(p).push(x) + s.skip(p) =~= s.push(x));
    } else if s.last().address_offset <= x.address_offset {
        assert(p == s.len());
        assert(s.take(p).push(x) + s.skip(p) =~= s.push(x));
    } else {
        let d = s.drop_last();
        lemma_insert_at(d, x, p);
        assert(d.take(p).push(x) + d.skip(p) + seq![s.last()] =~= s.take(p).push(x) + s.skip(p));
        assert(insert_by_address(d, x).push(s.last()) =~= d.take(p).push(x) + d.skip(p) + seq![s.last()]);
    }
}

proof fn lemma_insert_len(s: Seq<RegisterInfo>, x: RegisterInfo)
    ensures
        insert_by_address(s, x).len() == s.len() + 1,
    decreases s.len(),
{
    if s.len() > 0 && s.last().address_offset > x.address_offset {
        lemma_insert_len(s.drop_last(), x);
    }
}

proof fn lemma_insert_members(s: Seq<RegisterInfo>, x: RegisterInfo, i: int)
    requires
        0 <= i < insert_by_address(s, x).len(),
    ensures
        insert_by_address(s, x)[i] == x || exists|j: int| 0 <= j < s.len() && insert_by_address(s, x)[i] == s[j],
    decreases s.len(),
{
    if s.len() == 0 || s.last().address_offset <= x.address_offset {
        if i < s.len() {
            assert(insert_by_address(s, x)[i] == s[i]);
        }
    } else {
        let d = s.drop_last();
        lemma_insert_len(d, x);
        if i < d.len() + 1 {
            lemma_insert_members(d, x, i);
            if insert_by_address(d, x)[i] != x {
                let j = choose|j: int| 0 <= j < d.len() && insert_by_address(d, x)[i] == d[j];
                assert(s[j] == d[j]);
            }
        } else {
            assert(insert_by_address(s, x)[i] == s[s.len() - 1]);
        }
    }
}

proof fn lemma_insert_sorted(s: Seq<RegisterInfo>, x: RegisterInfo)
    requires
        sorted_by_address(s),
    ensures
        sorted_by_address(insert_by_address(s, x)),
        insert_by_address(s, x).len() == s.len() + 1,
    decreases s.len(),
{
    lemma_insert_len(s, x);
    if s.len() == 0 || s.last().address_offset <= x.address_offset {
    } else {
        let d = s.drop_last();
        lemma_insert_sorted(d, x);
        let t = insert_by_address(d, x);
        assert forall|i: int| 0 <= i < t.len() implies t[i].address_offset <= s.last().address_offset by {
            lemma_insert_members(d, x, i);
        }
    }
}

/// Sorting keeps the number of registers and orders them.
pub proof fn lemma_sort_sorted(s: Seq<RegisterInfo>)
    ensures
        sorted_by_address(sort_by_address(s)),
        sort_by_address(s).len() == s.len(),
    decreases s.len(),
{
    if s.len() > 0 {
        lemma_sort_sorted(s.drop_last());
        lemma_insert_sorted(sort_by_address(s.drop_last()), s.last());
    }
}

/// `v` sorted by address offset (see [`sort_by_address`]).
pub(crate) fn sort_registers(v: Vec<RegisterInfo>) -> (r: Vec<RegisterInfo>)
    ensures
        r@ == sort_by_address(v@),
        sorted_by_address(r@),
{
    let mut list = v;
    let ghost s = list@;
    let n = list.len();
    let mut out: Vec<RegisterInfo> = Vec::new();
    let mut i: usize = 0;
    while i < n
        invariant
            n == s.len(),
            i <= n,
            list@ == s.skip(i as int),
            out@ == sort_by_address(s.take(i as int)),
        decreases n - i,
    {
        let x = list.remove(0);
        assert(x == s[i as int]);
        assert(s.take(i + 1).drop_last() =~= s.take(i as int));
        assert(s.take(i + 1).last() == s[i as int]);
        let mut p = out.len();
        while p > 0 && out[p - 1].address_offset > x.address_offset
            invariant
                p <= out@.len(),
                forall|j: int| p <= j < out@.len() ==> out@[j].address_offset > x.address_offset,
            decreases p,
        {
            p -= 1;
        }
        proof {
            lemma_insert_at(out@, x, p as int);
        }
        let ghost before = out@;
        out.insert(p, x);
        assert(out@ =~= before.take(p as int).push(x) + before.skip(p as int));
        assert(list@ =~= s.skip(i + 1));
        i += 1;
    }
    assert(s.take(n as int) =~= s);
    proof {
        lemma_sort_sorted(s);
    }
    out
}

/// Whether some single register among `s` matches `spec`; an error when
/// the name of a single register cannot be tested against it.
pub(crate) fn scan_reg_singles(s: &Vec<RegisterCluster>, spec: &str) -> (r: Result<bool, PatchError>)
    ensures
        r is Err <==> !reg_singles_testable(s@, spec@),
        r matches Ok(b) ==> (b <==> reg_single_matches(s@, spec@).len() > 0),
{
    let mut found = false;
    let mut i: usize = 0;
    while i < s.len()
        invariant
            i <= s@.len(),
            reg_singles_testable(s@.take(i as int), spec@),
            found <==> reg_single_matches(s@.take(i as int), spec@).len() > 0,
        decreases s@.len() - i,
    {
        let ghost t = s@.take(i + 1);
        assert(t.drop_last() =~= s@.take(i as int));
        assert(t.last() == s@[i as int]);
        assert forall|j: int| 0 <= j < i implies t[j] == #[trigger] s@.take(i as int)[j] by {}
        match &s[i] {
            RegisterCluster::Register(b) => match &**b {
                Register::Single(r) => match checked_matchname(r.name.as_str(), spec) {
                    None => {
                        assert(single_register(s@[i as int]) == Some(*r));
                        return Err(PatchError::InvalidGlob(owned(spec)));
                    },
                    Some(m) => {
                        found = found || m;
                    },
                },
                Register::Array(..) => {},
            },
            RegisterCluster::Cluster(_) => {},
        }
        i += 1;
    }
    assert(s@.take(s@.len() as int) =~= s@);
    Ok(found)
}

/// Before the first match, every element stays.
proof fn lemma_other_len(s: Seq<RegisterCluster>, spec: Seq<char>, i: int)
    requires
        0 <= i <= s.len(),
        forall|j: int| 0 <= j < i ==> !single_reg_match(#[trigger] s[j], spec),
    ensures
        other_elements(s.take(i), spec).len() == i,
    decreases i,
{
    if i > 0 {
        assert(s.take(i).drop_last() =~= s.take(i - 1));
        assert(s.take(i).last() == s[i - 1]);
        lemma_other_len(s, spec, i - 1);
    }
}

/// Parts the elements into those that stay, the single registers that
/// `spec` matches, and the position of the first of them.
pub(crate) fn split_reg_singles(v: Vec<RegisterCluster>, spec: &str) -> (r: (Vec<RegisterCluster>, Vec<RegisterInfo>, usize))
    requires
        reg_singles_testable(v@, spec@),
        reg_single_matches(v@, spec@).len() > 0,
    ensures
        r.0@ == other_elements(v@, spec@),
        r.1@ == reg_single_matches(v@, spec@),
        r.2 == first_reg_single_at(v@, spec@),
        r.2 <= r.0@.len(),
{
    let mut list = v;
    let ghost s = list@;
    let n = list.len();
    let mut rest: Vec<RegisterCluster> = Vec::new();
    let mut matched: Vec<RegisterInfo> = Vec::new();
    let mut place: usize = 0;
    let mut i: usize = 0;
    while i < n
        invariant
            n == s.len(),
            i <= n,
            list@ == s.skip(i as int),
            reg_singles_testable(s, spec@),
            rest@ == other_elements(s.take(i as int), spec@),
            matched@ == reg_single_matches(s.take(i as int), spec@),
            matched@.len() == 0 ==> place == rest@.len() && forall|j: int|
                0 <= j < i ==> !single_reg_match(#[trigger] s[j], spec@),
            matched@.len() > 0 ==> is_first_reg_single(s, spec@, place as int) && place <= rest@.len(),
        decreases n - i,
    {
        let x = list.remove(0);
        assert(x == s[i as int]);
        let ghost t = s.take(i + 1);
        assert(t.drop_last() =~= s.take(i as int));
        assert(t.last() == s[i as int]);
        let m = match &x {
            RegisterCluster::Register(b) => match &**b {
                Register::Single(r) => {
                    assert(single_register(s[i as int]) == Some(*r));
                    matchname(r.name.as_str(), spec)
                },
                Register::Array(..) => false,
            },
            RegisterCluster::Cluster(_) => false,
        };
        if m {
            if matched.len() == 0 {
                place = i;
                assert(rest@.len() == i) by {
                    lemma_other_len(s, spec@, i as int);
                }
            }
            match x {
                RegisterCluster::Register(b) => match *b {
                    Register::Single(r) => {
                        matched.push(r);
                    },
                    Register::Array(..) => {
                        assert(false);
                    },
                },
                RegisterCluster::Cluster(_) => {
                    assert(false);
                },
            }
        } else {
            rest.push(x);
            if matched.len() == 0 {
                place = rest.len();
            }
        }
        assert(list@ =~= s.skip(i + 1));
        i += 1;
    }
    assert(s.take(n as int) =~= s);
    proof {
        let k = first_reg_single_at(s, spec@);
        assert(is_first_reg_single(s, spec@, k));
        if k < place {
            assert(!single_reg_match(s[k], spec@));
        }
        if place < k {
            assert(!single_reg_match(s[place as int], spec@));
        }
    }
    (rest, matched, place)
}

/// The names of `regs`.
fn names_of(regs: &Vec<RegisterInfo>) -> (r: Vec<String>)
    ensures
        strings_view(r@) == reg_names(regs@),
{
    let mut out: Vec<String> = Vec::new();
    let mut i: usize = 0;
    while i < regs.len()
        invariant
            i <= regs@.len(),
            out@.len() == i,
            strings_view(out@) == reg_names(regs@.take(i as int)),
        decreases regs@.len() - i,
    {
        let ghost before = out@;
        let n = regs[i].name.clone();
        assert(n@ == regs@[i as int].name@);
        out.push(n);
        i += 1;
        assert forall|j: int| 0 <= j < i implies #[trigger] strings_view(out@)[j] == reg_names(regs@.take(i as int))[j] by {
            if j < i - 1 {
                assert(strings_view(out@)[j] == strings_view(before)[j]);
                assert(reg_names(regs@.take(i as int))[j] == reg_names(regs@.take(i - 1))[j]);
            }
        }
        assert(strings_view(out@) =~= reg_names(regs@.take(i as int)));
    }
    assert(regs@.take(regs@.len() as int) =~= regs@);
    out
}

/// The address offsets of `regs`.
pub(crate) fn addresses(regs: &Vec<RegisterInfo>) -> (r: Vec<u32>)
    ensures
        r@ == addresses_of(regs@),
{
    let mut out: Vec<u32> = Vec::new();
    let mut i: usize = 0;
    while i < regs.len()
        invariant
            i <= regs@.len(),
            out@ == addresses_of(regs@.take(i as int)),
        decreases regs@.len() - i,
    {
        out.push(regs[i].address_offset);
        i += 1;
        assert(out@ =~= addresses_of(regs@.take(i as int)));
    }
    assert(regs@.take(regs@.len() as int) =~= regs@);
    out
}

/// Whether the fields of `r` lie within 64 bits.
fn fields_fit(r: &RegisterInfo) -> (b: bool)
    ensures
        b == fields_in_64_bits(fields_of(r.fields)),
{
    let fs = r.fields();
    let mut i: usize = 0;
    while i < fs.len()
        invariant
            i <= fs@.len(),
            fs@ == fields_of(r.fields),
            forall|j: int|
                0 <= j < i ==> 1 <= (#[trigger] fs@[j]).info_spec().bit_range.width <= 64
                    && fs@[j].info_spec().bit_range.offset < 64,
        decreases fs@.len() - i,
    {
        let br = fs[i].info().bit_range;
        if !(1 <= br.width && br.width <= 64 && br.offset < 64) {
            return false;
        }
        i += 1;
    }
    true
}

/// Whether the registers all fit their fields in 64 bits and cover the
/// same bits (see [`same_coverage`]).
pub(crate) fn check_coverage(regs: &Vec<RegisterInfo>) -> (b: bool)
    requires
        regs@.len() > 0,
    ensures
        b == same_coverage(regs@),
{
    let mut i: usize = 0;
    while i < regs.len()
        invariant
            i <= regs@.len(),
            forall|j: int| 0 <= j < i ==> fields_in_64_bits(fields_of((#[trigger] regs@[j]).fields)),
        decreases regs@.len() - i,
    {
        if !fields_fit(&regs[i]) {
            return false;
        }
        i += 1;
    }
    let m0 = regs[0].get_bitmask();
    let mut k: usize = 0;
    while k < regs.len()
        invariant
            k <= regs@.len(),
            regs@.len() > 0,
            forall|j: int| 0 <= j < regs@.len() ==> fields_in_64_bits(fields_of((#[trigger] regs@[j]).fields)),
            forall|b: u64| b < 64 ==> (bit_set(m0, b) <==> bit_in_fields(fields_of(regs@[0].fields), b)),
            forall|j: int| 0 <= j < k ==> covered_bits(#[trigger] regs@[j]) == covered_bits(regs@[0]),
        decreases regs@.len() - k,
    {
        let m = regs[k].get_bitmask();
        if m != m0 {
            proof {
                if covered_bits(regs@[k as int]) == covered_bits(regs@[0]) {
                    assert forall|b: u64| b < 64 implies (bit_set(m, b) <==> bit_set(m0, b)) by {
                        assert(covered_bits(regs@[k as int]).contains(b) == covered_bits(regs@[0]).contains(b));
                    }
                    lemma_same_bits(m, m0);
                }
            }
            return false;
        }
        assert forall|b: u64| #[trigger] covered_bits(regs@[k as int]).contains(b) == covered_bits(regs@[0]).contains(b) by {
            if b < 64 {
                assert(bit_set(m, b) <==> bit_in_fields(fields_of(regs@[k as int].fields), b));
                assert(bit_set(m0, b) <==> bit_in_fields(fields_of(regs@[0].fields), b));
            }
        }
        assert(covered_bits(regs@[k as int]) =~= covered_bits(regs@[0]));
        k += 1;
    }
    true
}

/// What must hold for the single registers that `rspec` matches to be
/// collected into an array.
pub open spec fn collectable(s: Seq<RegisterCluster>, rspec: Seq<char>, rmod: Seq<(YamlValue, YamlValue)>) -> bool {
    let b = utf8(rspec);
    let li = left_token(b)->0;
    let ri = right_token(b)->0;
    let sorted = sort_by_address(reg_single_matches(s, rspec));
    let zero = get_key_spec(rmod, "_start_from_zero"@) is Some;
    &&& left_token(b) is Some
    &&& right_token(b) is Some
    &&& reg_singles_testable(s, rspec)
    &&& reg_single_matches(s, rspec).len() > 0
    &&& (zero || names_cut_ok(reg_names(sorted), li, ri))
    &&& evenly_spaced(addresses_of(sorted), address_increment(sorted))
    &&& same_coverage(sorted)
    &&& pattern_cut_ok(rmod, rspec, li, ri)
    &&& field_edits(rmod, true) is Some
}

/// Collect same registers in peripheral into register array: the single
/// registers among the elements that `rspec` matches, sorted by address
/// offset, become one array register in the place of the first of them.
/// Its information is that of the register with the lowest address offset,
/// under the name of [`array_name_ok`] and the description of
/// [`array_description`], then processed with the mapping (see
/// [`crate::patch::process::process`]); its dimensions count the
/// registers, step by the distance of the first two, and are indexed as
/// [`name_indices_ok`] says. Fails unless [`collectable`] holds, and
/// otherwise only where the processing of the renamed first register can
/// fail (see [`edits_applied`]); the peripheral is then left in an
/// unspecified state. A peripheral without registers is left as it is.
#[verifier::rlimit(30)]
pub fn collect_in_array(p: &mut PeripheralInfo, rspec: &str, rmod: &Vec<(YamlValue, YamlValue)>) -> (r: Result<(), PatchError>)
    ensures
        old(p).registers is None ==> r is Ok && *final(p) == *old(p),
        old(p).registers is Some && r is Ok ==> collectable(elements_of(old(p).registers), rspec@, rmod@),
        old(p).registers is Some && !collectable(elements_of(old(p).registers), rspec@, rmod@) ==> r is Err,
        old(p).registers is Some && collectable(elements_of(old(p).registers), rspec@, rmod@) && r is Err ==> ({
            let s = elements_of(old(p).registers);
            let b = utf8(rspec@);
            let sorted = sort_by_address(reg_single_matches(s, rspec@));
            exists|g0: RegisterInfo|
                {
                    &&& g0 == (RegisterInfo { name: g0.name, description: g0.description, ..sorted[0] })
                    &&& array_name_ok(rmod@, rspec@, left_token(b)->0, right_token(b)->0, g0.name@)
                    &&& match field_edits(rmod@, true) {
                        None => true,
                        Some(es) => exists|q: RegisterInfo| edits_applied(g0, es, q, false),
                    }
                }
        }),
        old(p).registers is Some && r is Ok ==> ({
            let s = elements_of(old(p).registers);
            let b = utf8(rspec@);
            let li = left_token(b)->0;
            let ri = right_token(b)->0;
            let sorted = sort_by_address(reg_single_matches(s, rspec@));
            let zero = get_key_spec(rmod@, "_start_from_zero"@) is Some;
            let other = other_elements(s, rspec@);
            let q = first_reg_single_at(s, rspec@);
            let t = elements_of(final(p).registers);
            &&& final(p).registers is Some
            &&& t.len() == other.len() + 1
            &&& t.take(q) == other.take(q)
            &&& t.skip(q + 1) == other.skip(q)
            &&& t[q] matches RegisterCluster::Register(x) && *x matches Register::Array(g, d) && {
                &&& d@.dim == sorted.len() as u32
                &&& d@.dim_increment == address_increment(sorted)
                &&& d@.dim_name is None
                &&& d@.dim_array_index is None
                &&& d@.dim_index matches Some(idx) && name_indices_ok(reg_names(sorted), zero, li, ri, idx) && exists|
                    g0: RegisterInfo,
                |
                    {
                        &&& g0 == (RegisterInfo { name: g0.name, description: g0.description, ..sorted[0] })
                        &&& array_name_ok(rmod@, rspec@, li, ri, g0.name@)
                        &&& array_description(opt_chars(sorted[0].description), idx, opt_chars(g0.description))
                        &&& edits_applied(g0, field_edits(rmod@, true)->0, g, true)
                    }
            }
            &&& *final(p) == (PeripheralInfo { registers: final(p).registers, ..*old(p) })
        }),
{
    if p.registers.is_none() {
        return Ok(());
    }
    let ghost s = elements_of(p.registers);
    let (li, ri) = match spec_tokens(rspec) {
        Some(t) => t,
        None => return Err(PatchError::Value(owned(rspec))),
    };
    let v = match p.registers.take() {
        Some(v) => v,
        None => Vec::new(),
    };
    match scan_reg_singles(&v, rspec) {
        Err(e) => return Err(e),
        Ok(false) => return Err(PatchError::NotFound(qualified(p.name.as_str(), rspec))),
        Ok(true) => {},
    }
    let (rest, matched, place) = split_reg_singles(v, rspec);
    let sorted = sort_registers(matched);
    proof {
        lemma_sort_sorted(reg_single_matches(s, rspec@));
        reveal_strlit("_start_from_zero");
        reveal_strlit("0");
        reveal_strlit("%s");
    }
    let dim = sorted.len();
    let zero = get_key(rmod, "_start_from_zero").is_some();
    let names = names_of(&sorted);
    let idx = match name_index_texts(&names, zero, li, ri) {
        Some(v) => v,
        None => return Err(PatchError::Value(qualified(p.name.as_str(), rspec))),
    };
    let offs = addresses(&sorted);
    let inc: u32 = if dim > 1 {
        offs[1] - offs[0]
    } else {
        0
    };
    assert(inc == address_increment(sorted@));
    assert(offsets_ordered_while_even(offs@, inc)) by {
        assert forall|i: int| 0 <= i < offs@.len() - 1 implies #[trigger] offs@[i] <= offs@[i + 1] by {
            assert(sorted@[i].address_offset <= sorted@[i + 1].address_offset);
        }
    }
    if !check_offsets(offs.as_slice(), inc) {
        return Err(PatchError::Collect(qualified(p.name.as_str(), rspec)));
    }
    if !check_coverage(&sorted) {
        return Err(PatchError::Collect(qualified(p.name.as_str(), rspec)));
    }
    let name = match array_name(rmod, rspec, li, ri) {
        Some(n) => n,
        None => return Err(PatchError::Value(owned(rspec))),
    };
    let mut sorted = sorted;
    let first = sorted.remove(0);
    assert(first == sort_by_address(reg_single_matches(s, rspec@))[0]);
    assert(strings_view(idx@)[0] == idx@[0]@);
    let description = if str_eq(idx[0].as_str(), "0") {
        match &first.description {
            Some(d) => Some(replace_str(d.as_str(), "0", "%s")),
            None => None,
        }
    } else {
        clone_opt(&first.description)
    };
    let mut info = RegisterInfo { name, description, ..first };
    let ghost g0 = info;
    let ghost idx_s = strings_view(idx@);
    let d = match DimElement::builder().dim(dim as u32).dim_increment(inc).dim_index(Some(idx)).build(VAL_LVL) {
        Ok(d) => d,
        Err(e) => {
            assert(false);
            return Err(PatchError::Invalid(e));
        },
    };
    let pname = owned(p.name.as_str());
    match process(&mut info, rmod, pname.as_str(), true) {
        Ok(()) => {},
        Err(e) => {
            proof {
                let ghost fin = info;
                if let Some(es) = field_edits(rmod@, true) {
                    assert(edits_applied(g0, es, fin, false));
                }
            }
            return Err(e);
        },
    }
    let mut rest = rest;
    let ghost other = rest@;
    rest.insert(place, RegisterCluster::Register(Box::new(Register::Array(info, d))));
    proof {
        assert(rest@.take(place as int) =~= other.take(place as int));
        assert(rest@.skip(place + 1) =~= other.skip(place as int));
    }
    p.registers = Some(rest);
    Ok(())
}

} // verus!
