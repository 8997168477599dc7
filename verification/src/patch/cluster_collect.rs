//! Collecting groups of registers of a peripheral into an array of
//! clusters.
use vstd::prelude::*;

use crate::field::opt_chars;
use crate::patch::collect::{cut_ok, cut_of};
use crate::patch::error::PatchError;
use crate::patch::make::{key_text, VAL_LVL};
use crate::patch::names::{
    check_offsets, checked_matchname, evenly_spaced, first_match, glob_match, left_token, matchname_spec, matchsubspec,
    offsets_ordered_while_even, right_token, spec_tokens,
};
use crate::patch::process::{edits_applied, field_edits, process};
use crate::patch::register::qualified;
use crate::patch::register_array::{
    address_increment, addresses, addresses_of, check_coverage, single_register, first_reg_single_at, other_elements, reg_single_matches,
    reg_singles_testable, same_coverage, scan_reg_singles, sort_by_address, sort_registers, sorted_by_address, split_reg_singles,
};
use crate::patch::yaml::{get_hash, get_key_spec, get_str, YamlValue};
use crate::peripheral::elements_of;
use crate::text::{check_split, concat, drop_bytes, lemma_utf8_concat, owned, split_spec, splits_at, str_eq, strings_view, take_bytes, utf8};
use crate::cluster::ClusterInfoBuilder;
use crate::{Cluster, ClusterInfo, DimElement, PeripheralInfo, Register, RegisterCluster, RegisterInfo};

verus! {

/// The register patterns that a cluster mapping lists: its keys but
/// `description`, in order; each must be a text.
pub open spec fn cluster_specs(h: Seq<(YamlValue, YamlValue)>) -> Option<Seq<Seq<char>>>
    decreases h.len(),
{
    if h.len() == 0 {
        Some(Seq::empty())
    } else {
        match cluster_specs(h.drop_last()) {
            None => None,
            Some(p) => match h.last().0 {
                YamlValue::String(t) => if t@ == "description"@ {
                    Some(p)
                } else {
                    Some(p.push(t@))
                },
                _ => None,
            },
        }
    }
}

/// The elements left once the single registers that each pattern matches
/// are taken out, pattern after pattern.
#[verifier::opaque]
pub open spec fn remaining_after(s: Seq<RegisterCluster>, specs: Seq<Seq<char>>) -> Seq<RegisterCluster>
    decreases specs.len(),
{
    if specs.len() == 0 {
        s
    } else {
        other_elements(remaining_after(s, specs.drop_last()), specs.last())
    }
}

/// The registers that pattern `k` gathers: the single registers it matches
/// among the elements that the patterns before it left, sorted by address
/// offset.
#[verifier::opaque]
pub open spec fn group_at(s: Seq<RegisterCluster>, specs: Seq<Seq<char>>, k: int) -> Seq<RegisterInfo> {
    sort_by_address(reg_single_matches(remaining_after(s, specs.take(k)), specs[k]))
}

/// Each of the first `n` patterns matches some single register among the
/// elements left by the patterns before it, and all those names can be
/// tested.
pub open spec fn groups_found(s: Seq<RegisterCluster>, specs: Seq<Seq<char>>, n: int) -> bool {
    forall|k: int|
        0 <= k < n ==> {
            let left = remaining_after(s, specs.take(k));
            reg_singles_testable(left, specs[k]) && reg_single_matches(left, #[trigger] specs[k]).len() > 0
        }
}

/// Where the cluster goes: the lowest of the positions, each among the
/// elements left by the patterns before, of the first register that one
/// of the first `n` patterns matches.
#[verifier::opaque]
pub open spec fn cluster_place(s: Seq<RegisterCluster>, specs: Seq<Seq<char>>, n: int) -> int
    decreases n,
{
    if n <= 0 {
        s.len() as int
    } else {
        let p = first_reg_single_at(remaining_after(s, specs.take(n - 1)), specs[n - 1]);
        let m = cluster_place(s, specs, n - 1);
        if p < m {
            p
        } else {
            m
        }
    }
}

/// The groups of registers of the first `n` patterns.
pub open spec fn groups_of(s: Seq<RegisterCluster>, specs: Seq<Seq<char>>, n: int) -> Seq<Seq<RegisterInfo>> {
    Seq::new(n as nat, |k: int| group_at(s, specs, k))
}

/// The contents of a list of lists of registers.
pub open spec fn lists_view(v: Seq<Vec<RegisterInfo>>) -> Seq<Seq<RegisterInfo>> {
    Seq::new(v.len(), |i: int| v[i]@)
}

/// One more pattern: what it leaves, its group and the new place.
proof fn lemma_gather_step(s: Seq<RegisterCluster>, sv: Seq<Seq<char>>, k: int)
    requires
        0 <= k < sv.len(),
    ensures
        remaining_after(s, sv.take(k + 1)) == other_elements(remaining_after(s, sv.take(k)), sv[k]),
        group_at(s, sv, k) == sort_by_address(reg_single_matches(remaining_after(s, sv.take(k)), sv[k])),
        cluster_place(s, sv, k + 1) == ({
            let p = first_reg_single_at(remaining_after(s, sv.take(k)), sv[k]);
            let m = cluster_place(s, sv, k);
            if p < m {
                p
            } else {
                m
            }
        }),
{
    reveal(remaining_after);
    reveal(group_at);
    reveal(cluster_place);
    assert(sv.take(k + 1).drop_last() =~= sv.take(k));
    assert(sv.take(k + 1).last() == sv[k]);
}

/// No patterns leave the elements as they are, and put the cluster after
/// them all.
proof fn lemma_gather_start(s: Seq<RegisterCluster>, sv: Seq<Seq<char>>)
    ensures
        remaining_after(s, sv.take(0)) == s,
        cluster_place(s, sv, 0) == s.len(),
{
    reveal(remaining_after);
    reveal(cluster_place);
}

/// Takes the single registers that `spec` matches out of `v`: what stays,
/// the registers sorted by address offset, and the position of the first.
fn take_group(v: Vec<RegisterCluster>, spec: &str, pname: &str) -> (r: Result<
    (Vec<RegisterCluster>, Vec<RegisterInfo>, usize),
    PatchError,
>)
    ensures
        r is Ok <==> reg_singles_testable(v@, spec@) && reg_single_matches(v@, spec@).len() > 0,
        r matches Ok(t) ==> {
            &&& t.0@ == other_elements(v@, spec@)
            &&& t.1@ == sort_by_address(reg_single_matches(v@, spec@))
            &&& t.2 == first_reg_single_at(v@, spec@)
            &&& t.2 <= t.0@.len()
        },
{
    match scan_reg_singles(&v, spec) {
        Err(e) => return Err(e),
        Ok(false) => return Err(PatchError::NotFound(qualified(pname, spec))),
        Ok(true) => {},
    }
    let (rest, matched, place) = split_reg_singles(v, spec);
    let sorted = sort_registers(matched);
    Ok((rest, sorted, place))
}

/// Takes the group of each pattern out of `v` in turn: what stays, the
/// groups, and the place of the cluster (see [`cluster_place`]).
fn gather_groups(v: Vec<RegisterCluster>, specs: &Vec<String>, pname: &str) -> (r: Result<
    (Vec<RegisterCluster>, Vec<Vec<RegisterInfo>>, usize),
    PatchError,
>)
    ensures
        r is Ok <==> groups_found(v@, strings_view(specs@), specs@.len() as int),
        r matches Ok(t) ==> {
            let sv = strings_view(specs@);
            &&& t.0@ == remaining_after(v@, sv)
            &&& lists_view(t.1@) == groups_of(v@, sv, sv.len() as int)
            &&& t.2 == cluster_place(v@, sv, sv.len() as int)
            &&& t.2 <= t.0@.len()
        },
{
    let ghost s = v@;
    let ghost sv = strings_view(specs@);
    let mut rest = v;
    let mut groups: Vec<Vec<RegisterInfo>> = Vec::new();
    let mut place: usize = rest.len();
    let mut k: usize = 0;
    proof {
        lemma_gather_start(s, sv);
    }
    assert(lists_view(groups@) =~= groups_of(s, sv, 0));
    while k < specs.len()
        invariant
            k <= specs@.len(),
            sv == strings_view(specs@),
            s == v@,
            rest@ == remaining_after(s, sv.take(k as int)),
            groups_found(s, sv, k as int),
            lists_view(groups@) == groups_of(s, sv, k as int),
            place == cluster_place(s, sv, k as int),
            place <= rest@.len(),
        decreases specs@.len() - k,
    {
        assert(sv[k as int] == specs@[k as int]@);
        assert(lists_view(groups@).len() == groups_of(s, sv, k as int).len());
        proof {
            lemma_gather_step(s, sv, k as int);
        }
        let ghost left = rest@;
        let spec = specs[k].as_str();
        assert(spec@ == sv[k as int]);
        match take_group(rest, spec, pname) {
            Err(e) => {
                assert(!(reg_singles_testable(left, sv[k as int]) && reg_single_matches(left, sv[k as int]).len() > 0));
                assert(!groups_found(s, sv, sv.len() as int));
                assert(sv.len() == specs@.len());
                return Err(e);
            },
            Ok((r2, g, p)) => {
                rest = r2;
                if p < place {
                    place = p;
                }
                let ghost before = groups@;
                groups.push(g);
                assert(lists_view(groups@) =~= groups_of(s, sv, k + 1)) by {
                    assert forall|j: int| 0 <= j < k + 1 implies #[trigger] lists_view(groups@)[j] == groups_of(
                        s,
                        sv,
                        k + 1,
                    )[j] by {
                        if j < k {
                            assert(lists_view(groups@)[j] == lists_view(before)[j]);
                            assert(groups_of(s, sv, k + 1)[j] == groups_of(s, sv, k as int)[j]);
                        }
                    }
                }
            },
        }
        k += 1;
    }
    assert(sv.take(sv.len() as int) =~= sv);
    Ok((rest, groups, place))
}

/// The name cut down to its enumeration token: without its first `li` and
/// last `ri` bytes; `None` where it cannot be cut.
fn cut_name(name: &str, li: usize, ri: usize) -> (r: Option<String>)
    ensures
        r is Some <==> cut_ok(name@, li as int, ri as int),
        r matches Some(t) ==> cut_of(name@, li as int, ri as int, t@),
{
    let n = name.as_bytes().len();
    if !(ri <= n && li <= n - ri && check_split(name, n - ri)) {
        return None;
    }
    let front = take_bytes(name, n - ri);
    if !check_split(front.as_str(), li) {
        return None;
    }
    let t = drop_bytes(front.as_str(), li);
    assert(utf8(name@).take(n - ri).skip(li as int) =~= utf8(name@).subrange(li as int, n - ri));
    Some(t)
}

/// The first of the `,`-separated parts of `spec` that matches `name`.
pub open spec fn first_sub(name: Seq<char>, spec: Seq<char>) -> Seq<char> {
    let parts = split_spec(spec, ',');
    parts[choose|i: int| first_match(name, parts, i)]
}

/// Where `name` is cut to give its index in a group: the enumeration
/// token of the part of `spec` that it matches; `None` where that part has
/// no token or the name cannot be cut there.
pub open spec fn member_cut(name: Seq<char>, spec: Seq<char>) -> Option<(int, int)> {
    let b = utf8(first_sub(name, spec));
    if left_token(b) is Some && right_token(b) is Some && cut_ok(name, left_token(b)->0, right_token(b)->0) {
        Some((left_token(b)->0, right_token(b)->0))
    } else {
        None
    }
}

/// `t` is the index of the register named `name` in the group of `spec`.
pub open spec fn member_index(name: Seq<char>, spec: Seq<char>, t: Seq<char>) -> bool {
    &&& matchname_spec(name, spec) == Some(true)
    &&& member_cut(name, spec) matches Some(c) && cut_of(name, c.0, c.1, t)
}

/// `idx` lists the index of each register of the group `g` of `spec`.
pub open spec fn group_indices_ok(g: Seq<RegisterInfo>, spec: Seq<char>, idx: Seq<Seq<char>>) -> bool {
    &&& idx.len() == g.len()
    &&& forall|i: int| 0 <= i < g.len() ==> member_index(g[i].name@, spec, #[trigger] idx[i])
}

/// The groups can make one array of clusters, indexed by `idx`: the first
/// is evenly spaced; all have as many registers as the first, registers
/// covering the same bits, and the indices `idx`.
pub open spec fn groups_agree(gs: Seq<Seq<RegisterInfo>>, specs: Seq<Seq<char>>, idx: Seq<Seq<char>>) -> bool {
    &&& gs.len() > 0
    &&& evenly_spaced(addresses_of(gs[0]), address_increment(gs[0]))
    &&& forall|k: int|
        0 <= k < gs.len() ==> {
            &&& (#[trigger] gs[k]).len() == gs[0].len()
            &&& same_coverage(gs[k])
            &&& group_indices_ok(gs[k], specs[k], idx)
        }
}

/// A register has one index in a group.
pub proof fn lemma_member_index_unique(name: Seq<char>, spec: Seq<char>, t1: Seq<char>, t2: Seq<char>)
    requires
        member_index(name, spec, t1),
        member_index(name, spec, t2),
    ensures
        t1 == t2,
{
    vstd::utf8::encode_utf8_decode_utf8(t1);
    vstd::utf8::encode_utf8_decode_utf8(t2);
}

/// The index text of a register of a group: its name cut down to the
/// enumeration token of the part of the pattern that matches it.
fn group_index(name: &str, rspec: &str) -> (r: Option<String>)
    ensures
        r is Some <==> matchname_spec(name@, rspec@) == Some(true) && member_cut(name@, rspec@) is Some,
        r matches Some(t) ==> member_index(name@, rspec@, t@),
{
    if checked_matchname(name, rspec).is_none() {
        return None;
    }
    let sub = match matchsubspec(name, rspec) {
        Some(t) => t,
        None => return None,
    };
    proof {
        let parts = split_spec(rspec@, ',');
        let i = choose|i: int| first_match(name@, parts, i) && sub@ == parts[i];
        let j = choose|j: int| first_match(name@, parts, j);
        if i < j {
            assert(glob_match(parts[i], name@) == Some(false));
        }
        if j < i {
            assert(glob_match(parts[j], name@) == Some(false));
        }
        assert(first_sub(name@, rspec@) == sub@);
    }
    match spec_tokens(sub.as_str()) {
        Some((li, ri)) => cut_name(name, li, ri),
        None => None,
    }
}

/// The index texts of a group (see [`group_index`]).
fn group_indices(regs: &Vec<RegisterInfo>, rspec: &str) -> (r: Option<Vec<String>>)
    ensures
        r is Some <==> forall|i: int|
            0 <= i < regs@.len() ==> matchname_spec((#[trigger] regs@[i]).name@, rspec@) == Some(true) && member_cut(
                regs@[i].name@,
                rspec@,
            ) is Some,
        r matches Some(v) ==> group_indices_ok(regs@, rspec@, strings_view(v@)),
{
    let mut out: Vec<String> = Vec::new();
    let mut i: usize = 0;
    while i < regs.len()
        invariant
            i <= regs@.len(),
            out@.len() == i,
            forall|j: int| 0 <= j < i ==> member_index(regs@[j].name@, rspec@, #[trigger] strings_view(out@)[j]),
        decreases regs@.len() - i,
    {
        let ghost before = out@;
        match group_index(regs[i].name.as_str(), rspec) {
            Some(t) => out.push(t),
            None => {
                assert(!(matchname_spec(regs@[i as int].name@, rspec@) == Some(true) && member_cut(
                    regs@[i as int].name@,
                    rspec@,
                ) is Some));
                return None;
            },
        }
        assert forall|j: int| 0 <= j < i + 1 implies member_index(
            regs@[j].name@,
            rspec@,
            #[trigger] strings_view(out@)[j],
        ) by {
            if j < i {
                assert(strings_view(out@)[j] == strings_view(before)[j]);
            }
        }
        i += 1;
    }
    assert forall|j: int| 0 <= j < regs@.len() implies matchname_spec((#[trigger] regs@[j]).name@, rspec@) == Some(
        true,
    ) && member_cut(regs@[j].name@, rspec@) is Some by {
        assert(member_index(regs@[j].name@, rspec@, strings_view(out@)[j]));
    }
    Some(out)
}

/// Checks that the groups agree (see [`groups_agree`]), giving their
/// indices.
fn check_groups(groups: &Vec<Vec<RegisterInfo>>, specs: &Vec<String>) -> (r: Option<Vec<String>>)
    requires
        groups@.len() == specs@.len(),
        groups@.len() > 0,
        forall|k: int| 0 <= k < groups@.len() ==> sorted_by_address((#[trigger] groups@[k])@) && groups@[k]@.len() > 0,
    ensures
        r is Some <==> exists|idx: Seq<Seq<char>>| groups_agree(lists_view(groups@), strings_view(specs@), idx),
        r matches Some(v) ==> groups_agree(lists_view(groups@), strings_view(specs@), strings_view(v@)),
{
    let ghost gs = lists_view(groups@);
    let ghost sv = strings_view(specs@);
    assert(gs[0] == groups@[0]@);
    assert(sv[0] == specs@[0]@);
    let idx0 = match group_indices(&groups[0], specs[0].as_str()) {
        Some(v) => v,
        None => {
            proof {
                if exists|idx: Seq<Seq<char>>| groups_agree(gs, sv, idx) {
                    let idx = choose|idx: Seq<Seq<char>>| groups_agree(gs, sv, idx);
                    assert(group_indices_ok(gs[0], sv[0], idx));
                    assert forall|i: int| 0 <= i < gs[0].len() implies matchname_spec(
                        (#[trigger] gs[0][i]).name@,
                        sv[0],
                    ) == Some(true) && member_cut(gs[0][i].name@, sv[0]) is Some by {
                        assert(member_index(gs[0][i].name@, sv[0], idx[i]));
                    }
                }
            }
            return None;
        },
    };
    let ghost ix = strings_view(idx0@);
    assert(groups@[0]@.len() > 0);
    let offs = addresses(&groups[0]);
    let n = groups[0].len();
    let inc: u32 = if n > 1 {
        offs[1] - offs[0]
    } else {
        0
    };
    assert(inc == address_increment(gs[0]));
    assert(offsets_ordered_while_even(offs@, inc)) by {
        assert forall|i: int| 0 <= i < offs@.len() - 1 implies #[trigger] offs@[i] <= offs@[i + 1] by {
            assert(gs[0][i].address_offset <= gs[0][i + 1].address_offset);
        }
    }
    if !check_offsets(offs.as_slice(), inc) {
        return None;
    }
    let mut k: usize = 0;
    while k < groups.len()
        invariant
            k <= groups@.len(),
            groups@.len() == specs@.len(),
            gs == lists_view(groups@),
            sv == strings_view(specs@),
            ix == strings_view(idx0@),
            n == gs[0].len(),
            n > 0,
            group_indices_ok(gs[0], sv[0], ix),
            evenly_spaced(addresses_of(gs[0]), address_increment(gs[0])),
            forall|j: int|
                0 <= j < k ==> {
                    &&& (#[trigger] gs[j]).len() == gs[0].len()
                    &&& same_coverage(gs[j])
                    &&& group_indices_ok(gs[j], sv[j], ix)
                },
        decreases groups@.len() - k,
    {
        assert(gs[k as int] == groups@[k as int]@);
        assert(sv[k as int] == specs@[k as int]@);
        if groups[k].len() != n {
            proof {
                if exists|idx: Seq<Seq<char>>| groups_agree(gs, sv, idx) {
                    let idx = choose|idx: Seq<Seq<char>>| groups_agree(gs, sv, idx);
                    assert(gs[k as int].len() == gs[0].len());
                }
            }
            return None;
        }
        if !check_coverage(&groups[k]) {
            proof {
                if exists|idx: Seq<Seq<char>>| groups_agree(gs, sv, idx) {
                    let idx = choose|idx: Seq<Seq<char>>| groups_agree(gs, sv, idx);
                    assert(same_coverage(gs[k as int]));
                }
            }
            return None;
        }
        let t = match group_indices(&groups[k], specs[k].as_str()) {
            Some(v) => v,
            None => {
                proof {
                    if exists|idx: Seq<Seq<char>>| groups_agree(gs, sv, idx) {
                        let idx = choose|idx: Seq<Seq<char>>| groups_agree(gs, sv, idx);
                        assert(group_indices_ok(gs[k as int], sv[k as int], idx));
                        assert forall|i: int| 0 <= i < gs[k as int].len() implies matchname_spec(
                            (#[trigger] gs[k as int][i]).name@,
                            sv[k as int],
                        ) == Some(true) && member_cut(gs[k as int][i].name@, sv[k as int]) is Some by {
                            assert(member_index(gs[k as int][i].name@, sv[k as int], idx[i]));
                        }
                    }
                }
                return None;
            },
        };
        if !same_texts(&t, &idx0) {
            proof {
                if exists|idx: Seq<Seq<char>>| groups_agree(gs, sv, idx) {
                    let idx = choose|idx: Seq<Seq<char>>| groups_agree(gs, sv, idx);
                    assert(group_indices_ok(gs[0], sv[0], idx));
                    assert(group_indices_ok(gs[k as int], sv[k as int], idx));
                    assert forall|i: int| 0 <= i < n implies strings_view(t@)[i] == ix[i] by {
                        lemma_member_index_unique(gs[0][i].name@, sv[0], idx[i], ix[i]);
                        lemma_member_index_unique(gs[k as int][i].name@, sv[k as int], idx[i], strings_view(t@)[i]);
                    }
                    assert(strings_view(t@) =~= ix);
                }
            }
            return None;
        }
        k += 1;
    }
    proof {
        assert(groups_agree(gs, sv, ix));
    }
    Some(idx0)
}

/// The patterns that a cluster mapping lists (see [`cluster_specs`]).
fn read_specs(h: &Vec<(YamlValue, YamlValue)>) -> (r: Option<Vec<String>>)
    ensures
        match cluster_specs(h@) {
            Some(p) => r matches Some(v) && strings_view(v@) == p,
            None => r is None,
        },
{
    proof {
        reveal_strlit("description");
    }
    let mut out: Vec<String> = Vec::new();
    let mut i: usize = 0;
    while i < h.len()
        invariant
            i <= h@.len(),
            cluster_specs(h@.take(i as int)) == Some(strings_view(out@)),
        decreases h@.len() - i,
    {
        let ghost t = h@.take(i + 1);
        assert(t.drop_last() =~= h@.take(i as int));
        assert(t.last() == h@[i as int]);
        match &h[i].0 {
            YamlValue::String(k) => {
                if !str_eq(k.as_str(), "description") {
                    let ghost before = strings_view(out@);
                    out.push(k.clone());
                    assert(strings_view(out@) =~= before.push(k@));
                }
            },
            _ => {
                proof {
                    lemma_specs_fail(h@, i + 1);
                }
                return None;
            },
        }
        i += 1;
    }
    assert(h@.take(h@.len() as int) =~= h@);
    Some(out)
}

proof fn lemma_specs_fail(h: Seq<(YamlValue, YamlValue)>, j: int)
    requires
        0 <= j <= h.len(),
        cluster_specs(h.take(j)) is None,
    ensures
        cluster_specs(h) is None,
    decreases h.len() - j,
{
    if j < h.len() {
        assert(h.take(j + 1).drop_last() =~= h.take(j));
        lemma_specs_fail(h, j + 1);
    } else {
        assert(h.take(j) =~= h);
    }
}

/// Whether two lists of texts hold the same texts.
fn same_texts(a: &Vec<String>, b: &Vec<String>) -> (r: bool)
    ensures
        r == (strings_view(a@) == strings_view(b@)),
{
    if a.len() != b.len() {
        assert(strings_view(a@).len() != strings_view(b@).len());
        return false;
    }
    let mut i: usize = 0;
    while i < a.len()
        invariant
            i <= a@.len(),
            a@.len() == b@.len(),
            forall|j: int| 0 <= j < i ==> strings_view(a@)[j] == strings_view(b@)[j],
        decreases a@.len() - i,
    {
        if !str_eq(a[i].as_str(), b[i].as_str()) {
            assert(strings_view(a@)[i as int] != strings_view(b@)[i as int]);
            return false;
        }
        i += 1;
    }
    assert(strings_view(a@) =~= strings_view(b@));
    true
}

/// The mapping under `key` in `h`, where it is one.
pub open spec fn key_hash(h: Seq<(YamlValue, YamlValue)>, key: Seq<char>) -> Option<Seq<(YamlValue, YamlValue)>> {
    match get_key_spec(h, key) {
        Some(YamlValue::Hash(m)) => Some(m@),
        _ => None,
    }
}

/// `name` is the name of the register that the group of `spec` gives: the
/// one its mapping gives, else the pattern without its enumeration token.
pub open spec fn child_name_ok(rmod: Seq<(YamlValue, YamlValue)>, spec: Seq<char>, name: Seq<char>) -> bool {
    match key_text(rmod, "name"@) {
        Some(n) => name == n,
        None => {
            let b = utf8(spec);
            &&& left_token(b) is Some
            &&& right_token(b) is Some
            &&& utf8(name) == b.take(left_token(b)->0) + b.skip(b.len() - right_token(b)->0)
        },
    }
}

/// `c` is the register that the group `g` of `spec` gives to a cluster at
/// `base`: the first of the group, processed with the mapping under
/// `spec`, renamed (see [`child_name_ok`]) and placed relative to the
/// cluster.
pub open spec fn child_ok(g: Seq<RegisterInfo>, cmod: Seq<(YamlValue, YamlValue)>, spec: Seq<char>, base: u32, c: RegisterInfo) -> bool {
    &&& key_hash(cmod, spec) matches Some(m)
    &&& field_edits(m, true) matches Some(es)
    &&& child_name_ok(m, spec, c.name@)
    &&& exists|g1: RegisterInfo|
        {
            &&& edits_applied(g[0], es, g1, true)
            &&& c == (RegisterInfo { name: c.name, address_offset: (g[0].address_offset - base) as u32, ..g1 })
        }
}

/// `rc` is a single register that the group `g` of `spec` gives (see
/// [`child_ok`]).
pub open spec fn child_fits(rc: RegisterCluster, g: Seq<RegisterInfo>, cmod: Seq<(YamlValue, YamlValue)>, spec: Seq<char>, base: u32) -> bool {
    single_register(rc) matches Some(c) && child_ok(g, cmod, spec, base, c)
}

/// Each of `ch` is the single register that the matching group gives.
pub open spec fn children_ok(
    ch: Seq<RegisterCluster>,
    gs: Seq<Seq<RegisterInfo>>,
    cmod: Seq<(YamlValue, YamlValue)>,
    specs: Seq<Seq<char>>,
    base: u32,
) -> bool {
    &&& ch.len() == gs.len()
    &&& forall|k: int|
        0 <= k < ch.len() ==> child_fits(#[trigger] ch[k], gs[k], cmod, specs[k], base)
}

/// The lowest address offset of the first registers of the first `n`
/// groups.
pub open spec fn lowest_first(gs: Seq<Seq<RegisterInfo>>, n: int) -> u32
    decreases n,
{
    if n <= 1 {
        gs[0][0].address_offset
    } else {
        let m = lowest_first(gs, n - 1);
        let a = gs[n - 1][0].address_offset;
        if a < m {
            a
        } else {
            m
        }
    }
}

/// The lowest address offset of the first registers of the groups.
fn lowest_offset(groups: &Vec<Vec<RegisterInfo>>) -> (r: u32)
    requires
        groups@.len() > 0,
        forall|k: int| 0 <= k < groups@.len() ==> (#[trigger] groups@[k])@.len() > 0,
    ensures
        r == lowest_first(lists_view(groups@), groups@.len() as int),
        forall|k: int| 0 <= k < groups@.len() ==> r <= (#[trigger] groups@[k])@[0].address_offset,
{
    let ghost gs = lists_view(groups@);
    assert(gs[0] == groups@[0]@);
    let mut m = groups[0][0].address_offset;
    let mut k: usize = 1;
    while k < groups.len()
        invariant
            1 <= k <= groups@.len(),
            gs == lists_view(groups@),
            forall|j: int| 0 <= j < groups@.len() ==> (#[trigger] groups@[j])@.len() > 0,
            m == lowest_first(gs, k as int),
            forall|j: int| 0 <= j < k ==> m <= (#[trigger] groups@[j])@[0].address_offset,
        decreases groups@.len() - k,
    {
        assert(gs[k as int] == groups@[k as int]@);
        let a = groups[k][0].address_offset;
        if a < m {
            m = a;
        }
        k += 1;
    }
    m
}

/// The mapping `rmod` gives the register of the group of `spec` a name,
/// or the pattern has an enumeration token at whose ends it can be cut.
pub open spec fn child_name_found(rmod: Seq<(YamlValue, YamlValue)>, spec: Seq<char>) -> bool {
    let b = utf8(spec);
    ||| key_text(rmod, "name"@) is Some
    ||| {
        &&& left_token(b) is Some
        &&& right_token(b) is Some
        &&& splits_at(spec, left_token(b)->0)
        &&& splits_at(spec, b.len() - right_token(b)->0)
    }
}

/// The name of the register that the group of `spec` gives (see
/// [`child_name_ok`]); `None` exactly where the pattern cannot be cut (see
/// [`child_name_found`]).
fn child_name(rmod: &Vec<(YamlValue, YamlValue)>, spec: &str) -> (r: Option<String>)
    ensures
        r is Some <==> child_name_found(rmod@, spec@),
        r matches Some(n) ==> child_name_ok(rmod@, spec@, n@),
{
    proof {
        reveal_strlit("name");
    }
    match get_str(rmod, "name") {
        Some(n) => Some(owned(n)),
        None => {
            let (li, ri) = match spec_tokens(spec) {
                Some(t) => t,
                None => return None,
            };
            let n = spec.as_bytes().len();
            if !(check_split(spec, li) && check_split(spec, n - ri)) {
                return None;
            }
            let front = take_bytes(spec, li);
            let back = drop_bytes(spec, n - ri);
            let whole = concat(front.as_str(), back.as_str());
            proof {
                lemma_utf8_concat(front@, back@);
            }
            Some(whole)
        },
    }
}

/// Giving the group `g` of `spec` to a cluster can fail: the mapping has
/// no mapping under `spec`, that mapping cannot be read into edits, an
/// edit of the first register of the group can fail, or no name can be
/// found for it (see [`child_name_found`]).
pub open spec fn child_may_fail(g: Seq<RegisterInfo>, cmod: Seq<(YamlValue, YamlValue)>, spec: Seq<char>) -> bool {
    match key_hash(cmod, spec) {
        None => true,
        Some(m) => match field_edits(m, true) {
            None => true,
            Some(es) => (exists|b: RegisterInfo| edits_applied(g[0], es, b, false)) || !child_name_found(m, spec),
        },
    }
}

/// The registers that the groups give to the cluster (see
/// [`children_ok`]); fails only where a group can fail to be given (see
/// [`child_may_fail`]).
fn make_children(
    groups: Vec<Vec<RegisterInfo>>,
    specs: &Vec<String>,
    cmod: &Vec<(YamlValue, YamlValue)>,
    base: u32,
    pname: &str,
) -> (r: Result<Vec<RegisterCluster>, PatchError>)
    requires
        groups@.len() == specs@.len(),
        forall|k: int|
            0 <= k < groups@.len() ==> (#[trigger] groups@[k])@.len() > 0 && base <= groups@[k]@[0].address_offset,
    ensures
        r matches Ok(ch) ==> children_ok(ch@, lists_view(groups@), cmod@, strings_view(specs@), base),
        r is Err ==> exists|k: int|
            0 <= k < groups@.len() && child_may_fail(
                #[trigger] lists_view(groups@)[k],
                cmod@,
                strings_view(specs@)[k],
            ),
{
    let ghost gs = lists_view(groups@);
    let ghost sv = strings_view(specs@);
    let ghost g0 = groups@;
    let n = groups.len();
    let mut list = groups;
    let mut out: Vec<RegisterCluster> = Vec::new();
    let mut k: usize = 0;
    while k < n
        invariant
            n == g0.len(),
            n == specs@.len(),
            k <= n,
            g0 == groups@,
            gs == lists_view(g0),
            sv == strings_view(specs@),
            list@ == g0.skip(k as int),
            forall|j: int| 0 <= j < g0.len() ==> (#[trigger] g0[j])@.len() > 0 && base <= g0[j]@[0].address_offset,
            out@.len() == k,
            forall|j: int|
                0 <= j < k ==> child_fits(#[trigger] out@[j], gs[j], cmod@, sv[j], base),
        decreases n - k,
    {
        let mut g = list.remove(0);
        assert(g == g0[k as int]);
        assert(gs[k as int] == g@);
        assert(sv[k as int] == specs@[k as int]@);
        let spec = specs[k].as_str();
        let rmod = match get_hash(cmod, spec) {
            Some(m) => m,
            None => {
                assert(child_may_fail(gs[k as int], cmod@, sv[k as int]));
                return Err(PatchError::Value(owned(spec)));
            },
        };
        let mut first = g.remove(0);
        let ghost start = first;
        match process(&mut first, rmod, pname, true) {
            Ok(()) => {},
            Err(e) => {
                proof {
                    let ghost fin = first;
                    if let Some(es) = field_edits(rmod@, true) {
                        assert(edits_applied(gs[k as int][0], es, fin, false));
                    }
                    assert(child_may_fail(gs[k as int], cmod@, sv[k as int]));
                }
                return Err(e);
            },
        }
        let ghost g1 = first;
        proof {
            crate::patch::process::lemma_edits_keep_register(start, field_edits(rmod@, true)->0, g1);
        }
        let name = match child_name(rmod, spec) {
            Some(x) => x,
            None => {
                assert(child_may_fail(gs[k as int], cmod@, sv[k as int]));
                return Err(PatchError::Value(owned(spec)));
            },
        };
        first.name = name;
        first.address_offset = first.address_offset - base;
        assert(child_ok(gs[k as int], cmod@, sv[k as int], base, first));
        let ghost before = out@;
        out.push(RegisterCluster::Register(Box::new(Register::Single(first))));
        assert forall|j: int| 0 <= j < k + 1 implies child_fits(#[trigger] out@[j], gs[j], cmod@, sv[j], base) by {
            if j < k {
                assert(out@[j] == before[j]);
            }
        }
        assert(list@ =~= g0.skip(k + 1));
        k += 1;
    }
    Ok(out)
}

/// `Cluster <cname>, containing <a>, <b>, ...`.
pub open spec fn default_description(cname: Seq<char>, specs: Seq<Seq<char>>) -> Seq<char> {
    "Cluster "@ + cname + ", containing "@ + joined(specs)
}

/// The texts one after the other, separated by `, `.
pub open spec fn joined(t: Seq<Seq<char>>) -> Seq<char>
    decreases t.len(),
{
    if t.len() == 0 {
        Seq::empty()
    } else if t.len() == 1 {
        t[0]
    } else {
        joined(t.drop_last()) + ", "@ + t.last()
    }
}

/// The description of the cluster (see [`default_description`]).
fn describe_cluster(cname: &str, specs: &Vec<String>) -> (r: String)
    ensures
        r@ == default_description(cname@, strings_view(specs@)),
{
    let ghost sv = strings_view(specs@);
    let mut j = String::new();
    let mut i: usize = 0;
    proof {
        reveal_strlit("");
    }
    assert(sv.take(0) =~= Seq::<Seq<char>>::empty());
    while i < specs.len()
        invariant
            i <= specs@.len(),
            sv == strings_view(specs@),
            j@ == joined(sv.take(i as int)),
        decreases specs@.len() - i,
    {
        assert(sv[i as int] == specs@[i as int]@);
        assert(sv.take(i + 1).drop_last() =~= sv.take(i as int));
        if i > 0 {
            j = concat(j.as_str(), ", ");
        } else {
            assert(j@ =~= Seq::<char>::empty());
        }
        j = concat(j.as_str(), specs[i].as_str());
        i += 1;
        assert(j@ =~= joined(sv.take(i as int)));
    }
    assert(sv.take(sv.len() as int) =~= sv);
    let d = concat("Cluster ", cname);
    let d = concat(d.as_str(), ", containing ");
    concat(d.as_str(), j.as_str())
}

/// The description that a cluster mapping gives the cluster: the text
/// under `description`, else [`default_description`].
pub open spec fn cluster_description(cmod: Seq<(YamlValue, YamlValue)>, cname: Seq<char>, specs: Seq<Seq<char>>) -> Seq<char> {
    match key_text(cmod, "description"@) {
        Some(d) => d,
        None => default_description(cname, specs),
    }
}

/// The mapping lists patterns, each finds its group among `s`, and the
/// groups agree.
pub open spec fn cluster_collectable(s: Seq<RegisterCluster>, cmod: Seq<(YamlValue, YamlValue)>) -> bool {
    &&& cluster_specs(cmod) matches Some(sv)
    &&& sv.len() > 0
    &&& groups_found(s, sv, sv.len() as int)
    &&& exists|idx: Seq<Seq<char>>| groups_agree(groups_of(s, sv, sv.len() as int), sv, idx)
}

/// Each group of a gathering is a non-empty list sorted by address offset.
proof fn lemma_groups_sorted(s: Seq<RegisterCluster>, sv: Seq<Seq<char>>)
    requires
        groups_found(s, sv, sv.len() as int),
    ensures
        forall|k: int|
            0 <= k < sv.len() ==> (#[trigger] groups_of(s, sv, sv.len() as int)[k]).len() > 0 && sorted_by_address(
                groups_of(s, sv, sv.len() as int)[k],
            ),
{
    assert forall|k: int| 0 <= k < sv.len() implies (#[trigger] groups_of(s, sv, sv.len() as int)[k]).len() > 0
        && sorted_by_address(groups_of(s, sv, sv.len() as int)[k]) by {
        reveal(group_at);
        let left = remaining_after(s, sv.take(k));
        assert(reg_single_matches(left, sv[k]).len() > 0);
        crate::patch::register_array::lemma_sort_sorted(reg_single_matches(left, sv[k]));
    }
}

/// Collect registers in peripheral into a cluster array: the mapping
/// lists register patterns (each key but `description`, with a mapping
/// each); the single registers that each matches among those the patterns
/// before it left (see [`group_at`]) make one group. The groups must agree
/// (see [`groups_agree`]). In the place of [`cluster_place`] goes one array
/// of clusters named `cname`, at the lowest address offset of the groups,
/// described as [`cluster_description`] says, dimensioned and indexed as
/// the first group, whose children are the first register of each group,
/// as [`children_ok`] says. Fails where the mapping lists no pattern, a
/// key is not a text, a pattern finds no register or the groups do not
/// agree, and otherwise only where a child can fail to be made (see
/// [`child_may_fail`]); the peripheral is then left in an unspecified
/// state. A peripheral without registers is left as it is.
pub fn collect_in_cluster(p: &mut PeripheralInfo, cname: &str, cmod: &Vec<(YamlValue, YamlValue)>) -> (r: Result<(), PatchError>)
    ensures
        old(p).registers is None ==> r is Ok && *final(p) == *old(p),
        old(p).registers is Some && !cluster_collectable(elements_of(old(p).registers), cmod@) ==> r is Err,
        old(p).registers is Some && cluster_collectable(elements_of(old(p).registers), cmod@) && r is Err ==> ({
            let s = elements_of(old(p).registers);
            let sv = cluster_specs(cmod@)->0;
            exists|k: int|
                0 <= k < sv.len() && child_may_fail(
                    #[trigger] groups_of(s, sv, sv.len() as int)[k],
                    cmod@,
                    sv[k],
                )
        }),
        old(p).registers is Some && r is Ok ==> ({
            let s = elements_of(old(p).registers);
            let sv = cluster_specs(cmod@)->0;
            let n = sv.len() as int;
            let gs = groups_of(s, sv, n);
            let rest = remaining_after(s, sv);
            let q = cluster_place(s, sv, n);
            let base = lowest_first(gs, n);
            let desc = cluster_description(cmod@, cname@, sv);
            let t = elements_of(final(p).registers);
            &&& cluster_collectable(s, cmod@)
            &&& final(p).registers is Some
            &&& t.len() == rest.len() + 1
            &&& t.take(q) == rest.take(q)
            &&& t.skip(q + 1) == rest.skip(q)
            &&& t[q] matches RegisterCluster::Cluster(c) && *c matches Cluster::Array(ci, d) && {
                &&& ci == (ClusterInfo {
                    name: ci.name,
                    description: ci.description,
                    address_offset: base,
                    children: ci.children,
                    ..ClusterInfoBuilder::empty().built()
                })
                &&& ci.name@ == cname@
                &&& opt_chars(ci.description) == (if desc.len() == 0 {
                    None
                } else {
                    Some(desc)
                })
                &&& children_ok(ci.children@, gs, cmod@, sv, base)
                &&& d@.dim == gs[0].len() as u32
                &&& d@.dim_increment == address_increment(gs[0])
                &&& d@.dim_name is None
                &&& d@.dim_array_index is None
                &&& d@.dim_index matches Some(idx) && groups_agree(gs, sv, idx)
            }
            &&& *final(p) == (PeripheralInfo { registers: final(p).registers, ..*old(p) })
        }),
{
    if p.registers.is_none() {
        return Ok(());
    }
    let ghost s = elements_of(p.registers);
    let specs = match read_specs(cmod) {
        Some(v) => v,
        None => return Err(PatchError::Value(owned(cname))),
    };
    let ghost sv = strings_view(specs@);
    if specs.len() == 0 {
        return Err(PatchError::Collect(qualified(p.name.as_str(), cname)));
    }
    let v = match p.registers.take() {
        Some(v) => v,
        None => Vec::new(),
    };
    let pname = owned(p.name.as_str());
    let (rest, groups, place) = match gather_groups(v, &specs, pname.as_str()) {
        Ok(t) => t,
        Err(e) => return Err(e),
    };
    let ghost gs = groups_of(s, sv, sv.len() as int);
    assert(lists_view(groups@) == gs);
    assert(lists_view(groups@).len() == groups@.len());
    assert(gs.len() == sv.len());
    assert(sv.len() == specs@.len());
    proof {
        lemma_groups_sorted(s, sv);
        assert forall|k: int| 0 <= k < groups@.len() implies sorted_by_address((#[trigger] groups@[k])@)
            && groups@[k]@.len() > 0 by {
            assert(lists_view(groups@)[k] == groups@[k]@);
            assert(gs[k] == groups_of(s, sv, sv.len() as int)[k]);
        }
    }
    let idx = match check_groups(&groups, &specs) {
        Some(i) => i,
        None => return Err(PatchError::Collect(qualified(pname.as_str(), cname))),
    };
    let base = lowest_offset(&groups);
    assert(lists_view(groups@)[0] == groups@[0]@);
    let dim = groups[0].len();
    let inc: u32 = if dim > 1 {
        groups[0][1].address_offset - groups[0][0].address_offset
    } else {
        0
    };
    assert(inc == address_increment(gs[0]));
    let ghost gv = groups@;
    let children = match make_children(groups, &specs, cmod, base, pname.as_str()) {
        Ok(c) => c,
        Err(e) => {
            proof {
                let k = choose|k: int|
                    0 <= k < gv.len() && child_may_fail(
                        #[trigger] lists_view(gv)[k],
                        cmod@,
                        strings_view(specs@)[k],
                    );
                assert(gs[k] == lists_view(gv)[k]);
            }
            return Err(e);
        },
    };
    proof {
        reveal_strlit("description");
    }
    let desc = match get_str(cmod, "description") {
        Some(d) => owned(d),
        None => describe_cluster(cname, &specs),
    };
    let ghost desc_v = desc@;
    let ci = match ClusterInfo::builder().name(owned(cname)).description(Some(desc)).address_offset(base).children(
        children,
    ).build(VAL_LVL) {
        Ok(c) => c,
        Err(e) => return Err(PatchError::Invalid(e)),
    };
    let ghost ix = strings_view(idx@);
    let d = match DimElement::builder().dim(dim as u32).dim_increment(inc).dim_index(Some(idx)).build(VAL_LVL) {
        Ok(d) => d,
        Err(e) => {
            assert(false);
            return Err(PatchError::Invalid(e));
        },
    };
    let mut rest = rest;
    let ghost other = rest@;
    rest.insert(place, RegisterCluster::Cluster(Box::new(Cluster::Array(ci, d))));
    proof {
        assert(rest@.take(place as int) =~= other.take(place as int));
        assert(rest@.skip(place + 1) =~= other.skip(place as int));
    }
    p.registers = Some(rest);
    Ok(())
}

} // verus!
