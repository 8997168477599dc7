//! Reading patch files and the files that they bring in: the text of a file
//! becomes a mapping tagged with its path, and the includes that it asks
//! for are listed. Reading the files and the order in which the included
//! ones are loaded and merged (see [`crate::patch::merge::update_dict`])
//! stay with the caller.
use vstd::prelude::*;

use crate::patch::error::PatchError;
use crate::patch::make::key_text;
use crate::patch::merge::{key_index, lemma_entry_models_push, lemma_entry_models_update, lemma_key_index, Entries};
use crate::patch::yaml::{
    entry_models, find_key, get_key_spec, get_str, get_vec, lemma_entry_models, lemma_models, load_yaml, model,
    models, yaml_documents, YamlModel, YamlValue,
};
use crate::text::{chars_of, owned, str_eq, strings_view};

verus! {

/// `p` with the text key `key` given the text `value`: in the place of its
/// first entry with that key, else in a new entry at the end.
pub open spec fn set_entry(p: Entries, key: Seq<char>, value: Seq<char>) -> Entries {
    let k = YamlModel::Str(key);
    match key_index(p, k) {
        Some(i) => p.update(i, (k, YamlModel::Str(value))),
        None => p.push((k, YamlModel::Str(value))),
    }
}

/// Gives the text key `key` the text `value` in the mapping `h` (see
/// [`set_entry`]).
pub fn set_text(h: &mut Vec<(YamlValue, YamlValue)>, key: &str, value: &str)
    ensures
        entry_models(final(h)@) == set_entry(entry_models(old(h)@), key@, value@),
{
    let k = YamlValue::String(owned(key));
    let v = YamlValue::String(owned(value));
    proof {
        lemma_key_index(h@, k);
    }
    let ghost before = h@;
    match find_key(h, &k) {
        Some(i) => {
            let (old_key, _) = h.remove(i);
            h.insert(i, (old_key, v));
            proof {
                assert(h@ =~= before.update(i as int, (before[i as int].0, v)));
                lemma_entry_models_update(before, i as int, (before[i as int].0, v));
            }
        },
        None => {
            h.push((k, v));
            proof {
                lemma_entry_models_push(before, (k, v));
            }
        },
    }
}

/// The text key `k` starts with `_`: it names no peripheral.
pub open spec fn underscored(k: Seq<char>) -> bool {
    k.len() > 0 && k[0] == '_'
}

/// Entry `e` of an included file is a peripheral (a text key without `_`
/// in front) whose mapping includes further files.
pub open spec fn nested_include(e: (YamlModel, YamlModel)) -> bool {
    &&& e.0 matches YamlModel::Str(k) && !underscored(k)
    &&& e.1 matches YamlModel::Hash(m) && key_index(m, YamlModel::Str("_include"@)) is Some
}

/// Entry `e` with its mapping tagged with the path of its file, where it
/// includes further files (see [`nested_include`]).
pub open spec fn tag_entry(e: (YamlModel, YamlModel), path: Seq<char>) -> (YamlModel, YamlModel) {
    if nested_include(e) {
        (e.0, YamlModel::Hash(set_entry(e.1->Hash_0, "_path"@, path)))
    } else {
        e
    }
}

/// The entries `q`, each tagged as [`tag_entry`] says.
pub open spec fn tag_entries(q: Entries, path: Seq<char>) -> Entries {
    Seq::new(q.len(), |i: int| tag_entry(q[i], path))
}

/// Every key of `q` is a text.
pub open spec fn text_keys(q: Entries) -> bool {
    forall|i: int| 0 <= i < q.len() ==> (#[trigger] q[i]).0 is Str
}

/// `ps` lists, in increasing order, the positions of the entries of `q`
/// that bring in further files (see [`nested_include`]).
pub open spec fn include_positions(q: Entries, ps: Seq<usize>) -> bool {
    &&& forall|k: int| 0 <= k < ps.len() ==> (#[trigger] ps[k]) < q.len() && nested_include(q[ps[k] as int])
    &&& forall|k: int, l: int| 0 <= k < l < ps.len() ==> #[trigger] ps[k] < #[trigger] ps[l]
    &&& forall|i: int| 0 <= i < q.len() && nested_include(#[trigger] q[i]) ==> exists|k: int|
        0 <= k < ps.len() && ps[k] == i
}

/// Whether entry `(k, v)` includes further files (see [`nested_include`]).
fn is_nested(k: &YamlValue, v: &YamlValue) -> (r: bool)
    ensures
        r == nested_include((model(*k), model(*v))),
{
    let name = match k {
        YamlValue::String(s) => s,
        _ => return false,
    };
    let chars = chars_of(name.as_str());
    if chars.len() > 0 && chars[0] == '_' {
        return false;
    }
    match v {
        YamlValue::Hash(m) => {
            let key = YamlValue::String(owned("_include"));
            proof {
                reveal_strlit("_include");
                lemma_key_index(m@, key);
            }
            find_key(m, &key).is_some()
        },
        _ => false,
    }
}

/// Tags the mapping of each peripheral of `c` that includes further files
/// with `path` (see [`tag_entries`]), and lists their positions; `None`
/// where a key is no text.
fn tag_nested(c: Vec<(YamlValue, YamlValue)>, path: &str) -> (r: Option<(Vec<(YamlValue, YamlValue)>, Vec<usize>)>)
    ensures
        r is Some <==> text_keys(entry_models(c@)),
        r matches Some((t, ps)) ==> entry_models(t@) == tag_entries(entry_models(c@), path@) && include_positions(
            entry_models(c@),
            ps@,
        ),
{
    let ghost q = entry_models(c@);
    let ghost c0 = c@;
    proof {
        lemma_entry_models(c@);
    }
    let n = c.len();
    let mut list = c;
    let mut out: Vec<(YamlValue, YamlValue)> = Vec::new();
    let mut ps: Vec<usize> = Vec::new();
    let mut i: usize = 0;
    while i < n
        invariant
            c0 == c@,
            n == c0.len(),
            q == entry_models(c0),
            q.len() == n,
            forall|j: int| 0 <= j < n ==> #[trigger] q[j] == (model(c0[j].0), model(c0[j].1)),
            i <= n,
            list@ == c0.skip(i as int),
            out@.len() == i,
            forall|j: int| 0 <= j < i ==> (model(#[trigger] out@[j].0), model(out@[j].1)) == tag_entry(q[j], path@),
            forall|j: int| 0 <= j < i ==> (#[trigger] q[j]).0 is Str,
            forall|k: int| 0 <= k < ps@.len() ==> (#[trigger] ps@[k]) < i && nested_include(q[ps@[k] as int]),
            forall|k: int, l: int| 0 <= k < l < ps@.len() ==> #[trigger] ps@[k] < #[trigger] ps@[l],
            forall|j: int| 0 <= j < i && nested_include(#[trigger] q[j]) ==> exists|k: int|
                0 <= k < ps@.len() && ps@[k] == j,
        decreases n - i,
    {
        let (k, v) = list.remove(0);
        assert(k == c0[i as int].0 && v == c0[i as int].1);
        let text_key = match &k {
            YamlValue::String(_) => true,
            _ => false,
        };
        if !text_key {
            assert(q[i as int] == (model(k), model(v)));
            assert(!text_keys(q));
            return None;
        }
        let nested = is_nested(&k, &v);
        let e = if nested {
            match v {
                YamlValue::Hash(m) => {
                    let mut m = m;
                    set_text(&mut m, "_path", path);
                    proof {
                        reveal_strlit("_path");
                    }
                    (k, YamlValue::Hash(m))
                },
                other => (k, other),
            }
        } else {
            (k, v)
        };
        let ghost ps0 = ps@;
        if nested {
            ps.push(i);
            assert forall|j: int| 0 <= j < i + 1 && nested_include(#[trigger] q[j]) implies exists|k: int|
                0 <= k < ps@.len() && ps@[k] == j by {
                if j == i {
                    assert(ps@[ps@.len() - 1] == i);
                } else {
                    let k = choose|k: int| 0 <= k < ps0.len() && ps0[k] == j;
                    assert(ps@[k] == j);
                }
            }
        }
        out.push(e);
        assert(list@ =~= c0.skip(i + 1));
        i += 1;
    }
    proof {
        lemma_entry_models(out@);
        assert(entry_models(out@) =~= tag_entries(q, path@));
    }
    Some((out, ps))
}

/// The mapping that a patch file holds: the first of its documents, where
/// the text is YAML and that document is a mapping.
pub open spec fn first_mapping(text: Seq<char>) -> Option<Entries> {
    match yaml_documents(text) {
        Some(d) => if d.len() > 0 && d[0] is Hash {
            Some(d[0]->Hash_0)
        } else {
            None
        },
        None => None,
    }
}

/// The first document of the YAML text `text` (see [`first_mapping`]);
/// `Ok(None)` for a text without documents.
fn read_mapping(text: &str, path: &str) -> (r: Result<Option<Vec<(YamlValue, YamlValue)>>, PatchError>)
    ensures
        match r {
            Ok(None) => yaml_documents(text@) matches Some(d) && d.len() == 0,
            Ok(Some(h)) => first_mapping(text@) == Some(entry_models(h@)),
            Err(_) => first_mapping(text@) is None && !(yaml_documents(text@) matches Some(d) && d.len() == 0),
        },
{
    let mut docs = match load_yaml(text) {
        Some(d) => d,
        None => return Err(PatchError::Read(owned(path))),
    };
    proof {
        lemma_models(docs@);
    }
    if docs.len() == 0 {
        return Ok(None);
    }
    let ghost d0 = docs@;
    let first = docs.remove(0);
    assert(first == d0[0]);
    match first {
        YamlValue::Hash(h) => Ok(Some(h)),
        _ => Err(PatchError::Read(owned(path))),
    }
}

/// Reads the root patch file, whose text is `text`, found at `path`: its
/// first document must be a mapping, which is given the text key `_path`
/// with the path. Fails where the text is no YAML or holds no mapping
/// first.
pub fn read_root(text: &str, path: &str) -> (r: Result<Vec<(YamlValue, YamlValue)>, PatchError>)
    ensures
        match first_mapping(text@) {
            Some(h) => r matches Ok(t) && entry_models(t@) == set_entry(h, "_path"@, path@),
            None => r is Err,
        },
{
    match read_mapping(text, path) {
        Ok(Some(h)) => {
            let mut h = h;
            set_text(&mut h, "_path", path);
            proof {
                reveal_strlit("_path");
            }
            Ok(h)
        },
        Ok(None) => Err(PatchError::Read(owned(path))),
        Err(e) => Err(e),
    }
}

/// Whether `path` is one of the paths `included`.
pub fn is_included(included: &Vec<String>, path: &str) -> (r: bool)
    ensures
        r == strings_view(included@).contains(path@),
{
    let mut i: usize = 0;
    while i < included.len()
        invariant
            i <= included@.len(),
            forall|j: int| 0 <= j < i ==> included@[j]@ != path@,
        decreases included@.len() - i,
    {
        if str_eq(included[i].as_str(), path) {
            assert(strings_view(included@)[i as int] == path@);
            return true;
        }
        i += 1;
    }
    proof {
        if strings_view(included@).contains(path@) {
            let j = choose|j: int| 0 <= j < included@.len() && strings_view(included@)[j] == path@;
            assert(strings_view(included@)[j] == included@[j]@);
        }
    }
    false
}

/// What an included file at `path` with the text `text` gives, where it
/// was not included already: `Err` where the text is no YAML, its first
/// document is no mapping, or a key of that mapping is no text; `Ok(None)`
/// for a text without documents; else the mapping of its first document,
/// given `_path` with the path, and with each of its peripherals that
/// includes further files given `_path` too.
pub open spec fn included_mapping(text: Seq<char>, path: Seq<char>) -> Result<Option<Entries>, ()> {
    match yaml_documents(text) {
        None => Err(()),
        Some(d) => if d.len() == 0 {
            Ok(None)
        } else if d[0] is Hash && text_keys(set_entry(d[0]->Hash_0, "_path"@, path)) {
            Ok(Some(set_entry(d[0]->Hash_0, "_path"@, path)))
        } else {
            Err(())
        },
    }
}

/// Opens an included file found at `path`, whose text is `text`. A path in
/// `included` is skipped, and so is a text without documents. Otherwise
/// the file gives its mapping, tagged with its path (see
/// [`included_mapping`] and [`tag_entries`]), and the positions of its
/// peripherals that bring in further files (see [`include_positions`]):
/// those are to be loaded into their peripherals, then the includes of the
/// file itself, before the file is merged into the one that includes it.
/// The path is then added to `included`. Fails, leaving `included` as it
/// is, where the text cannot be read.
pub fn open_included(included: &mut Vec<String>, path: &str, text: &str) -> (r: Result<
    Option<(Vec<(YamlValue, YamlValue)>, Vec<usize>)>,
    PatchError,
>)
    ensures
        strings_view(old(included)@).contains(path@) ==> (r matches Ok(None)) && final(included)@ == old(included)@,
        !strings_view(old(included)@).contains(path@) ==> match included_mapping(text@, path@) {
            Err(()) => r is Err && final(included)@ == old(included)@,
            Ok(None) => (r matches Ok(None)) && final(included)@ == old(included)@,
            Ok(Some(q)) => r matches Ok(Some((t, ps))) && ({
                &&& entry_models(t@) == tag_entries(q, path@)
                &&& include_positions(q, ps@)
                &&& strings_view(final(included)@) == strings_view(old(included)@).push(path@)
            }),
        },
{
    if is_included(included, path) {
        return Ok(None);
    }
    let h = match read_mapping(text, path) {
        Ok(Some(h)) => h,
        Ok(None) => return Ok(None),
        Err(e) => return Err(e),
    };
    let mut h = h;
    set_text(&mut h, "_path", path);
    proof {
        reveal_strlit("_path");
    }
    let (t, ps) = match tag_nested(h, path) {
        Some(x) => x,
        None => return Err(PatchError::Value(owned(path))),
    };
    let ghost before = included@;
    included.push(owned(path));
    assert(strings_view(included@) =~= strings_view(before).push(path@));
    Ok(Some((t, ps)))
}

/// The texts that the list `a` holds, where each of its values is a text.
pub open spec fn texts_of_list(a: Seq<YamlValue>) -> Option<Seq<Seq<char>>> {
    if forall|i: int| 0 <= i < a.len() ==> (#[trigger] a[i]) is String {
        Some(Seq::new(a.len(), |i: int| a[i]->String_0@))
    } else {
        None
    }
}

/// The paths that a patch file includes: the texts of its list under
/// `_include`, none where it has no list there; `None` where the list
/// holds something else than a text.
pub open spec fn include_texts(h: Seq<(YamlValue, YamlValue)>) -> Option<Seq<Seq<char>>> {
    match get_key_spec(h, "_include"@) {
        Some(YamlValue::Array(a)) => texts_of_list(a@),
        _ => Some(Seq::empty()),
    }
}

/// The path of the patch file `parent` (its `_path`) and the paths that it
/// includes, relative to it (see [`include_texts`]). Fails where the file
/// has no `_path` text or an included path is no text.
pub fn include_paths(parent: &Vec<(YamlValue, YamlValue)>) -> (r: Result<(String, Vec<String>), PatchError>)
    ensures
        r is Ok <==> key_text(parent@, "_path"@) is Some && include_texts(parent@) is Some,
        r matches Ok((p, v)) ==> p@ == key_text(parent@, "_path"@)->0 && strings_view(v@) == include_texts(
            parent@,
        )->0,
{
    proof {
        reveal_strlit("_path");
        reveal_strlit("_include");
    }
    let self_path = match get_str(parent, "_path") {
        Some(p) => owned(p),
        None => return Err(PatchError::Value(owned("_path"))),
    };
    let mut out: Vec<String> = Vec::new();
    match get_vec(parent, "_include") {
        Some(a) => {
            let mut i: usize = 0;
            while i < a.len()
                invariant
                    get_key_spec(parent@, "_include"@) matches Some(YamlValue::Array(m)) && m@ == a@,
                    i <= a@.len(),
                    out@.len() == i,
                    forall|j: int| 0 <= j < i ==> (#[trigger] a@[j]) is String && out@[j]@ == a@[j]->String_0@,
                decreases a@.len() - i,
            {
                match &a[i] {
                    YamlValue::String(s) => out.push(owned(s.as_str())),
                    _ => {
                        assert(!(a@[i as int] is String));
                        assert(texts_of_list(a@) is None);
                        return Err(PatchError::Value(owned("_include")));
                    },
                }
                i += 1;
            }
            assert(strings_view(out@) =~= texts_of_list(a@)->0);
        },
        None => {
            assert(strings_view(out@) =~= Seq::<Seq<char>>::empty());
        },
    }
    Ok((self_path, out))
}

} // verus!
