//! Merging an included patch file into the one that includes it.
use vstd::prelude::*;

use crate::patch::error::PatchError;
use crate::text::owned;
use crate::patch::yaml::{
    elements_valid, entries_valid, entry_models, find_key, first_key, lemma_entry_models, lemma_models, model,
    model_valid, models, no_key, yaml_clone, yaml_eq, YamlValue, YamlModel,
};

verus! {

/// The entries of a mapping, by their contents.
pub type Entries = Seq<(YamlModel, YamlModel)>;

/// The position of the first entry of `p` with the key `key`.
pub open spec fn key_index(p: Entries, key: YamlModel) -> Option<int> {
    if exists|i: int| 0 <= i < p.len() && p[i].0 == key {
        Some(choose|i: int| 0 <= i < p.len() && p[i].0 == key && forall|j: int| 0 <= j < i ==> p[j].0 != key)
    } else {
        None
    }
}

/// The keys that are no rules: the path of a file and its includes.
pub open spec fn is_file_key(key: YamlModel) -> bool {
    key == YamlModel::Str("_path"@) || key == YamlModel::Str("_include"@)
}

/// `p` after merging in one entry `key: val` of an included file, the
/// including file winning: a file key is ignored; a new key is added at the
/// end; for a key that `p` holds with another value, a list grows by the
/// elements of a list or by a text it lacks, a mapping is merged
/// recursively, and a text becomes a list headed by it when `val` is a list
/// that lacks it; anything else keeps the value of `p`.
pub open spec fn merge_entry(p: Entries, key: YamlModel, val: YamlModel) -> Entries
    decreases val, 0int,
{
    if is_file_key(key) {
        p
    } else {
        match key_index(p, key) {
            None => p.push((key, val)),
            Some(i) => {
                let e = p[i].1;
                if e == val {
                    p
                } else {
                    match e {
                        YamlModel::Array(a) => match val {
                            YamlModel::Array(v) => p.update(i, (key, YamlModel::Array(a + v))),
                            YamlModel::Str(_) => if a.contains(val) {
                                p
                            } else {
                                p.update(i, (key, YamlModel::Array(a.push(val))))
                            },
                            _ => p,
                        },
                        YamlModel::Hash(h) => match val {
                            YamlModel::Hash(c) => p.update(i, (key, YamlModel::Hash(merge_all(h, c)))),
                            _ => p,
                        },
                        YamlModel::Str(_) => match val {
                            YamlModel::Array(a2) => if a2.contains(e) {
                                p
                            } else {
                                p.update(i, (key, YamlModel::Array(seq![e] + a2)))
                            },
                            _ => p,
                        },
                        _ => p,
                    }
                }
            },
        }
    }
}

/// `p` after merging in the entries of `c` in turn.
pub open spec fn merge_all(p: Entries, c: Entries) -> Entries
    decreases c, 1int,
{
    if c.len() == 0 {
        p
    } else {
        merge_all(merge_entry(p, c[0].0, c[0].1), c.subrange(1, c.len() as int))
    }
}

/// Merging `key: val` into `p` needs no mapping where there is none: a key
/// that `p` holds with another mapping must come with a mapping, itself
/// mergeable.
pub open spec fn entry_mergeable(p: Entries, key: YamlModel, val: YamlModel) -> bool
    decreases val, 0int,
{
    if is_file_key(key) {
        true
    } else {
        match key_index(p, key) {
            None => true,
            Some(i) => {
                let e = p[i].1;
                if e == val {
                    true
                } else {
                    match e {
                        YamlModel::Hash(h) => match val {
                            YamlModel::Hash(c) => all_mergeable(h, c),
                            _ => false,
                        },
                        _ => true,
                    }
                }
            },
        }
    }
}

/// Merging the entries of `c` into `p` in turn needs no mapping where there
/// is none.
pub open spec fn all_mergeable(p: Entries, c: Entries) -> bool
    decreases c, 1int,
{
    if c.len() == 0 {
        true
    } else {
        entry_mergeable(p, c[0].0, c[0].1) && all_mergeable(
            merge_entry(p, c[0].0, c[0].1),
            c.subrange(1, c.len() as int),
        )
    }
}

/// Merging the first `i + 1` entries is merging the first `i`, then entry `i`.
proof fn lemma_merge_step(p: Entries, c: Entries, i: int)
    requires
        0 <= i < c.len(),
    ensures
        merge_all(p, c.take(i + 1)) == merge_entry(merge_all(p, c.take(i)), c[i].0, c[i].1),
        all_mergeable(p, c.take(i + 1)) == (all_mergeable(p, c.take(i)) && entry_mergeable(
            merge_all(p, c.take(i)),
            c[i].0,
            c[i].1,
        )),
    decreases i,
{
    let e = Seq::<(YamlModel, YamlModel)>::empty();
    if i == 0 {
        let q = merge_entry(p, c[0].0, c[0].1);
        assert(c.take(1).subrange(1, 1) =~= e);
        assert(c.take(0) =~= e);
        assert(c.take(1)[0] == c[0]);
        assert(merge_all(q, e) == q);
        assert(merge_all(p, e) == p);
        assert(all_mergeable(q, e));
        assert(all_mergeable(p, e));
        assert(merge_all(p, c.take(1)) == merge_all(q, c.take(1).subrange(1, 1)));
        assert(all_mergeable(p, c.take(1)) == (entry_mergeable(p, c[0].0, c[0].1) && all_mergeable(
            q,
            c.take(1).subrange(1, 1),
        )));
    } else {
        let q = merge_entry(p, c[0].0, c[0].1);
        let rest = c.subrange(1, c.len() as int);
        lemma_merge_step(q, rest, i - 1);
        assert(c.take(i + 1).subrange(1, i + 1) =~= rest.take(i));
        assert(c.take(i).subrange(1, i) =~= rest.take(i - 1));
        assert(c.take(i + 1)[0] == c[0]);
        assert(c.take(i)[0] == c[0]);
        assert(rest[i - 1] == c[i]);
        assert(merge_all(p, c.take(i + 1)) == merge_all(q, c.take(i + 1).subrange(1, i + 1)));
        assert(merge_all(p, c.take(i)) == merge_all(q, c.take(i).subrange(1, i)));
        assert(all_mergeable(p, c.take(i + 1)) == (entry_mergeable(p, c[0].0, c[0].1) && all_mergeable(
            q,
            c.take(i + 1).subrange(1, i + 1),
        )));
        assert(all_mergeable(p, c.take(i)) == (entry_mergeable(p, c[0].0, c[0].1) && all_mergeable(
            q,
            c.take(i).subrange(1, i),
        )));
    }
}

/// The first entry with a key in the contents is the first in the entries.
pub proof fn lemma_key_index(p: Seq<(YamlValue, YamlValue)>, key: YamlValue)
    ensures
        match key_index(entry_models(p), model(key)) {
            Some(i) => first_key(p, model(key), i),
            None => no_key(p, model(key)),
        },
{
    lemma_entry_models(p);
    let m = entry_models(p);
    if exists|i: int| 0 <= i < m.len() && m[i].0 == model(key) {
        let w = choose|w: int| 0 <= w < m.len() && m[w].0 == model(key);
        lemma_first_of(m, model(key), w);
        let i = choose|i: int|
            0 <= i < m.len() && m[i].0 == model(key) && forall|j: int| 0 <= j < i ==> m[j].0 != model(key);
        assert(m[i] == (model(p[i].0), model(p[i].1)));
        assert forall|j: int| 0 <= j < i implies model(p[j].0) != model(key) by {
            assert(m[j] == (model(p[j].0), model(p[j].1)));
        }
    } else {
        assert forall|j: int| 0 <= j < p.len() implies model(p[j].0) != model(key) by {
            assert(m[j] == (model(p[j].0), model(p[j].1)));
        }
    }
}

/// A key at `w` has a first occurrence.
proof fn lemma_first_of(m: Entries, key: YamlModel, w: int)
    requires
        0 <= w < m.len(),
        m[w].0 == key,
    ensures
        exists|i: int| 0 <= i < m.len() && m[i].0 == key && forall|j: int| 0 <= j < i ==> m[j].0 != key,
    decreases w,
{
    if exists|j: int| 0 <= j < w && m[j].0 == key {
        let j = choose|j: int| 0 <= j < w && m[j].0 == key;
        lemma_first_of(m, key, j);
    } else {
        assert(0 <= w < m.len() && m[w].0 == key && forall|j: int| 0 <= j < w ==> m[j].0 != key);
    }
}

/// Replacing entry `j` replaces its contents.
pub proof fn lemma_entry_models_update(p: Seq<(YamlValue, YamlValue)>, j: int, e: (YamlValue, YamlValue))
    requires
        0 <= j < p.len(),
    ensures
        entry_models(p.update(j, e)) == entry_models(p).update(j, (model(e.0), model(e.1))),
{
    lemma_entry_models(p);
    lemma_entry_models(p.update(j, e));
    assert(entry_models(p.update(j, e)) =~= entry_models(p).update(j, (model(e.0), model(e.1))));
}

/// Adding an entry at the end adds its contents.
pub proof fn lemma_entry_models_push(p: Seq<(YamlValue, YamlValue)>, e: (YamlValue, YamlValue))
    ensures
        entry_models(p.push(e)) == entry_models(p).push((model(e.0), model(e.1))),
{
    lemma_entry_models(p);
    lemma_entry_models(p.push(e));
    assert(entry_models(p.push(e)) =~= entry_models(p).push((model(e.0), model(e.1))));
}

/// Whether a list holds a value with the contents of `x`.
fn list_contains(a: &Vec<YamlValue>, x: &YamlValue) -> (r: bool)
    ensures
        r == models(a@).contains(model(*x)),
{
    proof {
        lemma_models(a@);
    }
    let mut i: usize = 0;
    while i < a.len()
        invariant
            i <= a@.len(),
            models(a@).len() == a@.len(),
            forall|j: int| 0 <= j < a@.len() ==> #[trigger] models(a@)[j] == model(a@[j]),
            forall|j: int| 0 <= j < i ==> model(a@[j]) != model(*x),
        decreases a@.len() - i,
    {
        if yaml_eq(&a[i], x) {
            assert(models(a@)[i as int] == model(*x));
            return true;
        }
        i += 1;
    }
    proof {
        if models(a@).contains(model(*x)) {
            let j = choose|j: int| 0 <= j < models(a@).len() && models(a@)[j] == model(*x);
            assert(model(a@[j]) == model(*x));
        }
    }
    false
}

/// Appends copies of the values of `v` to `a`.
fn extend_list(a: &mut Vec<YamlValue>, v: &Vec<YamlValue>)
    ensures
        models(final(a)@) == models(old(a)@) + models(v@),
{
    proof {
        lemma_models(old(a)@);
        lemma_models(v@);
    }
    let ghost a0 = old(a)@;
    let mut i: usize = 0;
    while i < v.len()
        invariant
            i <= v@.len(),
            a@.len() == a0.len() + i,
            models(a0).len() == a0.len(),
            models(v@).len() == v@.len(),
            forall|j: int| 0 <= j < a0.len() ==> #[trigger] models(a0)[j] == model(a0[j]),
            forall|j: int| 0 <= j < v@.len() ==> #[trigger] models(v@)[j] == model(v@[j]),
            forall|j: int| 0 <= j < a0.len() ==> model(#[trigger] a@[j]) == model(a0[j]),
            forall|j: int| 0 <= j < i ==> model(#[trigger] a@[a0.len() + j]) == model(v@[j]),
        decreases v@.len() - i,
    {
        let c = yaml_clone(&v[i]);
        a.push(c);
        proof {
            assert forall|j: int| 0 <= j < i + 1 implies model(#[trigger] a@[a0.len() + j]) == model(v@[j]) by {
                if j == i {
                    assert(a@[a0.len() + j] == c);
                }
            }
        }
        i += 1;
    }
    proof {
        lemma_models(a@);
        assert forall|j: int| 0 <= j < a@.len() implies #[trigger] models(a@)[j] == (models(a0) + models(v@))[j] by {
            if j >= a0.len() {
                assert(model(a@[a0.len() + (j - a0.len())]) == model(v@[j - a0.len()]));
            }
        }
        assert(models(a@) =~= models(a0) + models(v@));
    }
}

/// The value of an entry after merging in `val`, by the rules of
/// [`merge_entry`], for a key that the entry holds with another value.
fn merged_value(e: YamlValue, val: &YamlValue) -> (r: Result<YamlValue, PatchError>)
    requires
        model(e) != model(*val),
    ensures
        r is Ok <==> (model(e) is Hash ==> (model(*val) matches YamlModel::Hash(c) && all_mergeable(
            model(e)->Hash_0,
            c,
        ))),
        r matches Ok(x) ==> model(x) == match model(e) {
            YamlModel::Array(a) => match model(*val) {
                YamlModel::Array(v) => YamlModel::Array(a + v),
                YamlModel::Str(_) => if a.contains(model(*val)) {
                    model(e)
                } else {
                    YamlModel::Array(a.push(model(*val)))
                },
                _ => model(e),
            },
            YamlModel::Hash(h) => match model(*val) {
                YamlModel::Hash(c) => YamlModel::Hash(merge_all(h, c)),
                _ => model(e),
            },
            YamlModel::Str(_) => match model(*val) {
                YamlModel::Array(a2) => if a2.contains(model(e)) {
                    model(e)
                } else {
                    YamlModel::Array(seq![model(e)] + a2)
                },
                _ => model(e),
            },
            _ => model(e),
        },
    decreases val,
{
    match e {
        YamlValue::Array(mut a) => match val {
            YamlValue::Array(v) => {
                extend_list(&mut a, v);
                Ok(YamlValue::Array(a))
            },
            YamlValue::String(_) => {
                if list_contains(&a, val) {
                    Ok(YamlValue::Array(a))
                } else {
                    let ghost a0 = a@;
                    a.push(yaml_clone(val));
                    proof {
                        lemma_models(a0);
                        lemma_models(a@);
                        assert(models(a@) =~= models(a0).push(model(*val)));
                    }
                    Ok(YamlValue::Array(a))
                }
            },
            _ => Ok(YamlValue::Array(a)),
        },
        YamlValue::Hash(mut h) => match val {
            YamlValue::Hash(c) => {
                proof {
                    assert(val->Hash_0 == *c);
                    assert(decreases_to!(*val => val->Hash_0));
                }
                match update_dict(&mut h, c) {
                    Ok(()) => Ok(YamlValue::Hash(h)),
                    Err(x) => Err(x),
                }
            },
            _ => Err(PatchError::Value(owned("_include"))),
        },
        YamlValue::String(s) => match val {
            YamlValue::Array(a2) => {
                let e2 = YamlValue::String(s);
                if list_contains(a2, &e2) {
                    Ok(e2)
                } else {
                    let mut out: Vec<YamlValue> = Vec::new();
                    out.push(e2);
                    extend_list(&mut out, a2);
                    proof {
                        lemma_models(seq![e2]);
                        assert(models(seq![e2]) =~= seq![model(e2)]);
                    }
                    Ok(YamlValue::Array(out))
                }
            },
            _ => Ok(YamlValue::String(s)),
        },
        other => Ok(other),
    }
}

/// Recursively merge child.key into parent.key, with parent overriding (see
/// [`merge_entry`]). Fails where a key holds a mapping in the parent and
/// something else in the child (see [`all_mergeable`]); the parent is then
/// left in an unspecified state.
pub fn update_dict(parent: &mut Vec<(YamlValue, YamlValue)>, child: &Vec<(YamlValue, YamlValue)>) -> (r: Result<(), PatchError>)
    ensures
        r is Ok <==> all_mergeable(entry_models(old(parent)@), entry_models(child@)),
        r is Ok ==> entry_models(final(parent)@) == merge_all(entry_models(old(parent)@), entry_models(child@)),
        r is Ok && entries_valid(entry_models(old(parent)@)) && entries_valid(entry_models(child@)) ==> entries_valid(
            entry_models(final(parent)@),
        ),
    decreases child,
{
    let ghost p0 = entry_models(old(parent)@);
    let ghost c = entry_models(child@);
    proof {
        lemma_entry_models(child@);
    }
    let mut i: usize = 0;
    assert(c.take(0) =~= Seq::<(YamlModel, YamlModel)>::empty());
    while i < child.len()
        invariant
            i <= child@.len(),
            p0 == entry_models(old(parent)@),
            c == entry_models(child@),
            c.len() == child@.len(),
            forall|j: int| 0 <= j < child@.len() ==> #[trigger] c[j] == (model(child@[j].0), model(child@[j].1)),
            entry_models(parent@) == merge_all(p0, c.take(i as int)),
            all_mergeable(p0, c.take(i as int)),
        decreases child@.len() - i,
    {
        proof {
            lemma_merge_step(p0, c, i as int);
        }
        let key = &child[i].0;
        let val = &child[i].1;
        let ghost p = entry_models(parent@);
        let is_file = match key {
            YamlValue::String(s) => crate::text::str_eq(s.as_str(), "_path") || crate::text::str_eq(
                s.as_str(),
                "_include",
            ),
            _ => false,
        };
        proof {
            reveal_strlit("_path");
            reveal_strlit("_include");
            lemma_key_index(parent@, *key);
            lemma_entry_models(parent@);
        }
        assert(is_file == is_file_key(model(*key)));
        if !is_file {
            match find_key(parent, key) {
                Some(j) => {
                    assert(key_index(p, model(*key)) == Some(j as int)) by {
                        let k = key_index(p, model(*key))->0;
                        assert(first_key(parent@, model(*key), k));
                        crate::patch::yaml::lemma_first_key_unique(parent@, model(*key), k, j as int);
                    }
                    assert(p[j as int] == (model(parent@[j as int].0), model(parent@[j as int].1)));
                    if !yaml_eq(&parent[j].1, val) {
                        let ghost before = parent@;
                        let (k, e) = parent.remove(j);
                        proof {
                            assert(val->Hash_0 == val->Hash_0);
                            assert(decreases_to!(*child => child@));
                            assert(decreases_to!(child@ => child@[i as int]));
                            assert(decreases_to!(child@[i as int] => child@[i as int].1));
                        }
                        let ne = match merged_value(e, val) {
                            Ok(x) => x,
                            Err(x) => {
                                proof {
                                    assert(!entry_mergeable(p, c[i as int].0, c[i as int].1));
                                    assert(!all_mergeable(p0, c.take(i + 1)));
                                    if all_mergeable(p0, c) {
                                        lemma_mergeable_prefix(p0, c, i as int + 1);
                                    }
                                }
                                return Err(x);
                            },
                        };
                        parent.insert(j, (k, ne));
                        proof {
                            assert(parent@ =~= before.update(j as int, (k, ne)));
                            lemma_entry_models_update(before, j as int, (k, ne));
                        }
                    }
                },
                None => {
                    let ghost before = parent@;
                    let k = yaml_clone(key);
                    let v = yaml_clone(val);
                    parent.push((k, v));
                    proof {
                        lemma_entry_models_push(before, (k, v));
                    }
                },
            }
        }
        i += 1;
    }
    assert(c.take(child@.len() as int) =~= c);
    proof {
        if entries_valid(p0) && entries_valid(c) {
            lemma_merge_keeps_valid(p0, c);
        }
    }
    Ok(())
}

/// Whatever merges in full merges in part.
proof fn lemma_mergeable_prefix(p: Entries, c: Entries, n: int)
    requires
        0 <= n <= c.len(),
        all_mergeable(p, c),
    ensures
        all_mergeable(p, c.take(n)),
    decreases n,
{
    if n > 0 {
        lemma_mergeable_prefix(p, c, n - 1);
        lemma_merge_step(p, c, n - 1);
        lemma_mergeable_prefix_entry(p, c, n - 1);
    }
}

/// The entry `i` of a mergeable list merges into the merge of those before.
proof fn lemma_mergeable_prefix_entry(p: Entries, c: Entries, i: int)
    requires
        0 <= i < c.len(),
        all_mergeable(p, c),
    ensures
        entry_mergeable(merge_all(p, c.take(i)), c[i].0, c[i].1),
    decreases i,
{
    let rest = c.subrange(1, c.len() as int);
    let q = merge_entry(p, c[0].0, c[0].1);
    if i == 0 {
        assert(c.take(0) =~= Seq::<(YamlModel, YamlModel)>::empty());
    } else {
        lemma_mergeable_prefix_entry(q, rest, i - 1);
        lemma_merge_step(p, c, i - 1);
        assert(c.take(i).subrange(1, i) =~= rest.take(i - 1));
        assert(c.take(i)[0] == c[0]);
        assert(rest[i - 1] == c[i]);
    }
}

/// Merging one entry keeps the keys of the including file, in their order.
proof fn lemma_merge_entry_keeps_keys(p: Entries, key: YamlModel, val: YamlModel)
    ensures
        merge_entry(p, key, val).len() >= p.len(),
        forall|i: int| 0 <= i < p.len() ==> (#[trigger] merge_entry(p, key, val)[i]).0 == p[i].0,
{
    if !is_file_key(key) && exists|i: int| 0 <= i < p.len() && p[i].0 == key {
        let w = choose|w: int| 0 <= w < p.len() && p[w].0 == key;
        lemma_first_of(p, key, w);
        let k = key_index(p, key)->0;
        assert(0 <= k < p.len() && p[k].0 == key);
    }
}

/// Merging an included file keeps every key of the including file, in its
/// place: the merged mapping begins with the same keys, in the same order.
pub proof fn lemma_merge_keeps_keys(p: Entries, c: Entries)
    ensures
        merge_all(p, c).len() >= p.len(),
        forall|i: int| 0 <= i < p.len() ==> (#[trigger] merge_all(p, c)[i]).0 == p[i].0,
    decreases c.len(),
{
    if c.len() > 0 {
        let q = merge_entry(p, c[0].0, c[0].1);
        lemma_merge_entry_keeps_keys(p, c[0].0, c[0].1);
        lemma_merge_keeps_keys(q, c.subrange(1, c.len() as int));
        assert forall|i: int| 0 <= i < p.len() implies (#[trigger] merge_all(p, c)[i]).0 == p[i].0 by {
            assert(merge_all(p, c)[i].0 == q[i].0);
        }
    }
}

/// Merging one valid entry into valid entries gives valid entries.
proof fn lemma_merge_entry_valid(p: Entries, key: YamlModel, val: YamlModel)
    requires
        entries_valid(p),
        model_valid(key),
        model_valid(val),
    ensures
        entries_valid(merge_entry(p, key, val)),
    decreases val, 0int,
{
    if !is_file_key(key) {
        match key_index(p, key) {
            None => {
                let q = p.push((key, val));
                assert forall|i: int, j: int| 0 <= i < j < q.len() implies #[trigger] q[i].0 != #[trigger] q[j].0 by {
                    if j == p.len() {
                        assert(q[i] == p[i]);
                    } else {
                        assert(q[i] == p[i] && q[j] == p[j]);
                    }
                }
                assert forall|i: int| 0 <= i < q.len() implies model_valid(#[trigger] q[i].0) && model_valid(
                    q[i].1,
                ) by {
                    if i < p.len() {
                        assert(q[i] == p[i]);
                    }
                }
            },
            Some(i) => {
                let w = choose|w: int| 0 <= w < p.len() && p[w].0 == key;
                lemma_first_of(p, key, w);
                assert(0 <= i < p.len() && p[i].0 == key);
                let e = p[i].1;
                assert(model_valid(p[i].0) && model_valid(e));
                if e != val {
                    let nv: YamlModel = match e {
                        YamlModel::Array(a) => match val {
                            YamlModel::Array(v) => {
                                assert forall|k: int| 0 <= k < (a + v).len() implies model_valid(
                                    #[trigger] (a + v)[k],
                                ) by {
                                    if k < a.len() {
                                        assert((a + v)[k] == a[k]);
                                    } else {
                                        assert((a + v)[k] == v[k - a.len()]);
                                    }
                                }
                                YamlModel::Array(a + v)
                            },
                            YamlModel::Str(_) => {
                                assert forall|k: int| 0 <= k < a.push(val).len() implies model_valid(
                                    #[trigger] a.push(val)[k],
                                ) by {
                                    if k < a.len() {
                                        assert(a.push(val)[k] == a[k]);
                                    }
                                }
                                YamlModel::Array(a.push(val))
                            },
                            _ => e,
                        },
                        YamlModel::Hash(h) => match val {
                            YamlModel::Hash(c) => {
                                assert(entries_valid(c));
                                assert(elements_valid(c));
                                lemma_merge_all_valid(h, c);
                                YamlModel::Hash(merge_all(h, c))
                            },
                            _ => e,
                        },
                        YamlModel::Str(_) => match val {
                            YamlModel::Array(a2) => {
                                assert forall|k: int| 0 <= k < (seq![e] + a2).len() implies model_valid(
                                    #[trigger] (seq![e] + a2)[k],
                                ) by {
                                    if k > 0 {
                                        assert((seq![e] + a2)[k] == a2[k - 1]);
                                    }
                                }
                                YamlModel::Array(seq![e] + a2)
                            },
                            _ => e,
                        },
                        _ => e,
                    };
                    assert(model_valid(nv));
                    let q = p.update(i, (key, nv));
                    assert forall|x: int, y: int| 0 <= x < y < q.len() implies #[trigger] q[x].0
                        != #[trigger] q[y].0 by {
                        assert(q[x].0 == p[x].0 && q[y].0 == p[y].0);
                    }
                    assert forall|k: int| 0 <= k < q.len() implies model_valid(#[trigger] q[k].0) && model_valid(
                        q[k].1,
                    ) by {
                        if k != i {
                            assert(q[k] == p[k]);
                        }
                    }
                }
            },
        }
    }
}

/// Merging valid entries into valid entries, in turn, gives valid entries.
proof fn lemma_merge_all_valid(p: Entries, c: Entries)
    requires
        entries_valid(p),
        elements_valid(c),
    ensures
        entries_valid(merge_all(p, c)),
    decreases c, 1int,
{
    if c.len() > 0 {
        assert(model_valid(c[0].0) && model_valid(c[0].1));
        lemma_merge_entry_valid(p, c[0].0, c[0].1);
        let rest = c.subrange(1, c.len() as int);
        assert forall|i: int| 0 <= i < rest.len() implies model_valid(#[trigger] rest[i].0) && model_valid(
            rest[i].1,
        ) by {
            assert(rest[i] == c[i + 1]);
        }
        lemma_merge_all_valid(merge_entry(p, c[0].0, c[0].1), rest);
    }
}

/// Merging an included file keeps the merged mapping one of a patch file:
/// where each key of the including file occurs once, and so in every
/// mapping in either file, every mapping of the merge holds each key once.
pub proof fn lemma_merge_keeps_valid(p: Entries, c: Entries)
    requires
        entries_valid(p),
        entries_valid(c),
    ensures
        entries_valid(merge_all(p, c)),
{
    lemma_merge_all_valid(p, c);
}

/// Merging an empty file changes nothing.
pub proof fn lemma_merge_nothing(p: Entries)
    ensures
        merge_all(p, Seq::empty()) == p,
{
}

} // verus!
