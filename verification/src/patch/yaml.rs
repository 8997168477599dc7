//! The values of a patch file and the rules that read numbers, flags and
//! texts out of them.
use vstd::prelude::*;

use crate::text::{chars_of, str_eq};

verus! {

/// A value of a patch file: a scalar, a list, or a mapping whose entries
/// keep the order in which they were written. In a value read from a file
/// a key occurs once in each mapping (see [`yaml_valid`]); lookups go by
/// the first entry with the key.
#[derive(Debug)]
pub enum YamlValue {
    /// A floating point number, as written
    Real(String),
    /// An integer
    Integer(i64),
    /// A text
    String(String),
    /// A flag
    Boolean(bool),
    /// A list
    Array(Vec<YamlValue>),
    /// A mapping, in the order of its entries
    Hash(Vec<(YamlValue, YamlValue)>),
    /// A reference to an anchor
    Alias(usize),
    /// No value
    Null,
    /// A value that could not be read
    BadValue,
}

/// The contents of a [`YamlValue`] value.
pub enum YamlModel {
    /// A floating point number, as written
    Real(Seq<char>),
    /// An integer
    Integer(i64),
    /// A text
    Str(Seq<char>),
    /// A flag
    Boolean(bool),
    /// A list
    Array(Seq<YamlModel>),
    /// A mapping, in the order of its entries
    Hash(Seq<(YamlModel, YamlModel)>),
    /// A reference to an anchor
    Alias(usize),
    /// No value
    Null,
    /// A value that could not be read
    BadValue,
}

/// The contents of a value.
pub open spec fn model(y: YamlValue) -> YamlModel
    decreases y,
{
    match y {
        YamlValue::Real(s) => YamlModel::Real(s@),
        YamlValue::Integer(i) => YamlModel::Integer(i),
        YamlValue::String(s) => YamlModel::Str(s@),
        YamlValue::Boolean(b) => YamlModel::Boolean(b),
        YamlValue::Array(v) => YamlModel::Array(models(v@)),
        YamlValue::Hash(v) => YamlModel::Hash(entry_models(v@)),
        YamlValue::Alias(n) => YamlModel::Alias(n),
        YamlValue::Null => YamlModel::Null,
        YamlValue::BadValue => YamlModel::BadValue,
    }
}

/// The contents of a list of values.
pub open spec fn models(s: Seq<YamlValue>) -> Seq<YamlModel>
    decreases s,
{
    if s.len() == 0 {
        Seq::empty()
    } else {
        seq![model(s[0])] + models(s.subrange(1, s.len() as int))
    }
}

/// The contents of a list of entries.
pub open spec fn entry_models(s: Seq<(YamlValue, YamlValue)>) -> Seq<(YamlModel, YamlModel)>
    decreases s,
{
    if s.len() == 0 {
        Seq::empty()
    } else {
        seq![(model(s[0].0), model(s[0].1))] + entry_models(s.subrange(1, s.len() as int))
    }
}

/// The documents, by their contents, that `yaml_rust::YamlLoader::load_from_str`
/// reads from the text `text`; `None` where it refuses the text.
pub uninterp spec fn yaml_documents(text: Seq<char>) -> Option<Seq<YamlModel>>;

/// Reads the documents of a YAML text with
/// `yaml_rust::YamlLoader::load_from_str`, each taken one for one as a
/// value of a patch file. The contract names the outcome (the YAML
/// language is not restated here) and claims one fact of the reader: its
/// mappings are maps, so each holds a key once, at any depth.
#[verifier::external_body]
pub fn load_yaml(text: &str) -> (r: Option<Vec<YamlValue>>)
    ensures
        r is Some <==> yaml_documents(text@) is Some,
        r matches Some(v) ==> models(v@) == yaml_documents(text@)->0,
        r matches Some(v) ==> forall|i: int| 0 <= i < v@.len() ==> model_valid(#[trigger] models(v@)[i]),
{
    match yaml_rust::YamlLoader::load_from_str(text) {
        Ok(docs) => Some(docs.iter().map(from_yaml_value).collect()),
        Err(_) => None,
    }
}

/// A value of the YAML reader, taken one for one as a value of a patch
/// file: each variant as the variant of the same name, lists and mappings
/// element by element, in their order. It serves [`load_yaml`] only, whose
/// contract states what the reading gives.
#[verifier::external_body]
fn from_yaml_value(y: &yaml_rust::Yaml) -> YamlValue {
    match y {
        yaml_rust::Yaml::Real(s) => YamlValue::Real(s.clone()),
        yaml_rust::Yaml::Integer(i) => YamlValue::Integer(*i),
        yaml_rust::Yaml::String(s) => YamlValue::String(s.clone()),
        yaml_rust::Yaml::Boolean(b) => YamlValue::Boolean(*b),
        yaml_rust::Yaml::Array(v) => YamlValue::Array(v.iter().map(from_yaml_value).collect()),
        yaml_rust::Yaml::Hash(h) => YamlValue::Hash(h.iter().map(|(k, v)| (from_yaml_value(k), from_yaml_value(v))).collect()),
        yaml_rust::Yaml::Alias(a) => YamlValue::Alias(*a),
        yaml_rust::Yaml::Null => YamlValue::Null,
        yaml_rust::Yaml::BadValue => YamlValue::BadValue,
    }
}

/// The keys of the entries `h` differ one from another.
pub open spec fn keys_unique(h: Seq<(YamlModel, YamlModel)>) -> bool {
    forall|i: int, j: int| 0 <= i < j < h.len() ==> #[trigger] h[i].0 != #[trigger] h[j].0
}

/// The contents `y` are those of a value of a patch file: in every mapping,
/// at any depth, a key occurs once.
pub open spec fn model_valid(y: YamlModel) -> bool
    decreases y, 0int,
{
    match y {
        YamlModel::Array(a) => forall|i: int| 0 <= i < a.len() ==> model_valid(#[trigger] a[i]),
        YamlModel::Hash(h) => entries_valid(h),
        _ => true,
    }
}

/// Every key and value of the entries `h` is valid (see [`model_valid`]).
pub open spec fn elements_valid(h: Seq<(YamlModel, YamlModel)>) -> bool
    decreases h, 0int,
{
    forall|i: int| 0 <= i < h.len() ==> model_valid(#[trigger] h[i].0) && model_valid(h[i].1)
}

/// The entries `h` are those of a mapping of a patch file: their keys
/// occur once and every key and value is valid.
pub open spec fn entries_valid(h: Seq<(YamlModel, YamlModel)>) -> bool
    decreases h, 1int,
{
    keys_unique(h) && elements_valid(h)
}

/// The value `y` is one of a patch file: in every mapping, at any depth,
/// a key occurs once (see [`model_valid`]).
pub open spec fn yaml_valid(y: YamlValue) -> bool {
    model_valid(model(y))
}

/// The contents of a list are those of its elements, one for one.
pub proof fn lemma_models(s: Seq<YamlValue>)
    ensures
        models(s).len() == s.len(),
        forall|i: int| 0 <= i < s.len() ==> #[trigger] models(s)[i] == model(s[i]),
    decreases s.len(),
{
    if s.len() > 0 {
        lemma_models(s.subrange(1, s.len() as int));
        assert forall|i: int| 0 <= i < s.len() implies #[trigger] models(s)[i] == model(s[i]) by {
            if i > 0 {
                assert(s.subrange(1, s.len() as int)[i - 1] == s[i]);
            }
        }
    }
}

/// The contents of a list of entries are those of its entries, one for one.
pub proof fn lemma_entry_models(s: Seq<(YamlValue, YamlValue)>)
    ensures
        entry_models(s).len() == s.len(),
        forall|i: int|
            0 <= i < s.len() ==> #[trigger] entry_models(s)[i] == (model(s[i].0), model(s[i].1)),
    decreases s.len(),
{
    if s.len() > 0 {
        lemma_entry_models(s.subrange(1, s.len() as int));
        assert forall|i: int| 0 <= i < s.len() implies #[trigger] entry_models(s)[i] == (
            model(s[i].0),
            model(s[i].1),
        ) by {
            if i > 0 {
                assert(s.subrange(1, s.len() as int)[i - 1] == s[i]);
            }
        }
    }
}

/// Two values have the same contents.
pub fn yaml_eq(a: &YamlValue, b: &YamlValue) -> (r: bool)
    ensures
        r == (model(*a) == model(*b)),
    decreases a,
{
    match (a, b) {
        (YamlValue::Real(x), YamlValue::Real(y)) => str_eq(x.as_str(), y.as_str()),
        (YamlValue::Integer(x), YamlValue::Integer(y)) => *x == *y,
        (YamlValue::String(x), YamlValue::String(y)) => str_eq(x.as_str(), y.as_str()),
        (YamlValue::Boolean(x), YamlValue::Boolean(y)) => *x == *y,
        (YamlValue::Array(x), YamlValue::Array(y)) => {
            proof {
                lemma_models(x@);
                lemma_models(y@);
            }
            if x.len() != y.len() {
                return false;
            }
            let mut i: usize = 0;
            while i < x.len()
                invariant
                    *a == YamlValue::Array(*x),
                    *b == YamlValue::Array(*y),
                    x@.len() == y@.len(),
                    i <= x@.len(),
                    models(x@).len() == x@.len(),
                    models(y@).len() == y@.len(),
                    forall|j: int| 0 <= j < x@.len() ==> #[trigger] models(x@)[j] == model(x@[j]),
                    forall|j: int| 0 <= j < y@.len() ==> #[trigger] models(y@)[j] == model(y@[j]),
                    forall|j: int| 0 <= j < i ==> model(x@[j]) == model(y@[j]),
                decreases x@.len() - i,
            {
                if !yaml_eq(&x[i], &y[i]) {
                    assert(models(x@)[i as int] != models(y@)[i as int]);
                    return false;
                }
                i += 1;
            }
            assert(models(x@) =~= models(y@));
            true
        },
        (YamlValue::Hash(x), YamlValue::Hash(y)) => {
            proof {
                lemma_entry_models(x@);
                lemma_entry_models(y@);
            }
            if x.len() != y.len() {
                return false;
            }
            let mut i: usize = 0;
            while i < x.len()
                invariant
                    *a == YamlValue::Hash(*x),
                    *b == YamlValue::Hash(*y),
                    x@.len() == y@.len(),
                    i <= x@.len(),
                    entry_models(x@).len() == x@.len(),
                    entry_models(y@).len() == y@.len(),
                    forall|j: int|
                        0 <= j < x@.len() ==> #[trigger] entry_models(x@)[j] == (model(x@[j].0), model(x@[j].1)),
                    forall|j: int|
                        0 <= j < y@.len() ==> #[trigger] entry_models(y@)[j] == (model(y@[j].0), model(y@[j].1)),
                    forall|j: int| 0 <= j < i ==> entry_models(x@)[j] == entry_models(y@)[j],
                decreases x@.len() - i,
            {
                let k = yaml_eq(&x[i].0, &y[i].0);
                let v = yaml_eq(&x[i].1, &y[i].1);
                assert(entry_models(x@)[i as int] == (model(x@[i as int].0), model(x@[i as int].1)));
                assert(entry_models(y@)[i as int] == (model(y@[i as int].0), model(y@[i as int].1)));
                if !(k && v) {
                    return false;
                }
                i += 1;
            }
            assert(entry_models(x@) =~= entry_models(y@));
            true
        },
        (YamlValue::Alias(x), YamlValue::Alias(y)) => *x == *y,
        (YamlValue::Null, YamlValue::Null) => true,
        (YamlValue::BadValue, YamlValue::BadValue) => true,
        _ => false,
    }
}

/// A copy of a value, with the same contents.
pub fn yaml_clone(a: &YamlValue) -> (r: YamlValue)
    ensures
        model(r) == model(*a),
    decreases a,
{
    match a {
        YamlValue::Real(x) => YamlValue::Real(x.clone()),
        YamlValue::Integer(x) => YamlValue::Integer(*x),
        YamlValue::String(x) => YamlValue::String(x.clone()),
        YamlValue::Boolean(x) => YamlValue::Boolean(*x),
        YamlValue::Array(x) => {
            let mut out: Vec<YamlValue> = Vec::new();
            let mut i: usize = 0;
            proof {
                lemma_models(x@);
            }
            while i < x.len()
                invariant
                    *a == YamlValue::Array(*x),
                    i <= x@.len(),
                    out@.len() == i,
                    forall|j: int| 0 <= j < i ==> model(#[trigger] out@[j]) == model(x@[j]),
                decreases x@.len() - i,
            {
                proof {
                    assert((*a)->Array_0 == *x);
                    assert(decreases_to!(*a => (*a)->Array_0));
                }
                let c = yaml_clone(&x[i]);
                out.push(c);
                i += 1;
            }
            proof {
                lemma_models(out@);
                assert(models(out@) =~= models(x@));
            }
            YamlValue::Array(out)
        },
        YamlValue::Hash(x) => {
            let mut out: Vec<(YamlValue, YamlValue)> = Vec::new();
            let mut i: usize = 0;
            proof {
                lemma_entry_models(x@);
            }
            while i < x.len()
                invariant
                    *a == YamlValue::Hash(*x),
                    i <= x@.len(),
                    out@.len() == i,
                    forall|j: int|
                        0 <= j < i ==> model((#[trigger] out@[j]).0) == model(x@[j].0) && model(out@[j].1) == model(
                            x@[j].1,
                        ),
                decreases x@.len() - i,
            {
                proof {
                    assert((*a)->Hash_0 == *x);
                    assert(decreases_to!(*a => (*a)->Hash_0));
                }
                let k = yaml_clone(&x[i].0);
                let v = yaml_clone(&x[i].1);
                out.push((k, v));
                i += 1;
            }
            proof {
                lemma_entry_models(out@);
                assert(entry_models(out@) =~= entry_models(x@));
            }
            YamlValue::Hash(out)
        },
        YamlValue::Alias(x) => YamlValue::Alias(*x),
        YamlValue::Null => YamlValue::Null,
        YamlValue::BadValue => YamlValue::BadValue,
    }
}

impl YamlValue {
    /// The text of a text value.
    pub fn as_str(&self) -> (r: Option<&str>)
        ensures
            match self {
                YamlValue::String(s) => r matches Some(t) && t@ == s@,
                _ => r is None,
            },
    {
        match self {
            YamlValue::String(s) => Some(s.as_str()),
            _ => None,
        }
    }

    /// The entries of a mapping.
    pub fn as_hash(&self) -> (r: Option<&Vec<(YamlValue, YamlValue)>>)
        ensures
            match self {
                YamlValue::Hash(h) => r == Some(h),
                _ => r is None,
            },
    {
        match self {
            YamlValue::Hash(h) => Some(h),
            _ => None,
        }
    }

    /// The elements of a list.
    pub fn as_vec(&self) -> (r: Option<&Vec<YamlValue>>)
        ensures
            match self {
                YamlValue::Array(v) => r == Some(v),
                _ => r is None,
            },
    {
        match self {
            YamlValue::Array(v) => Some(v),
            _ => None,
        }
    }
}

/// The position of the first entry of `h` whose key is `key`.
pub open spec fn first_key(h: Seq<(YamlValue, YamlValue)>, key: YamlModel, i: int) -> bool {
    0 <= i < h.len() && model(h[i].0) == key && forall|j: int| 0 <= j < i ==> model(h[j].0) != key
}

/// No entry of `h` has the key `key`.
pub open spec fn no_key(h: Seq<(YamlValue, YamlValue)>, key: YamlModel) -> bool {
    forall|j: int| 0 <= j < h.len() ==> model(h[j].0) != key
}

/// Finds the entry of `h` with the key `key`: the first, where keys repeat.
pub fn find_key(h: &Vec<(YamlValue, YamlValue)>, key: &YamlValue) -> (r: Option<usize>)
    ensures
        match r {
            Some(i) => first_key(h@, model(*key), i as int),
            None => no_key(h@, model(*key)),
        },
{
    let mut i: usize = 0;
    while i < h.len()
        invariant
            i <= h@.len(),
            forall|j: int| 0 <= j < i ==> model(h@[j].0) != model(*key),
        decreases h@.len() - i,
    {
        if yaml_eq(&h[i].0, key) {
            return Some(i);
        }
        i += 1;
    }
    None
}

/// The value of the entry of `h` with the key `key`.
pub fn hash_get<'a>(h: &'a Vec<(YamlValue, YamlValue)>, key: &YamlValue) -> (r: Option<&'a YamlValue>)
    ensures
        match r {
            Some(v) => exists|i: int| first_key(h@, model(*key), i) && *v == h@[i].1,
            None => no_key(h@, model(*key)),
        },
{
    match find_key(h, key) {
        Some(i) => Some(&h[i].1),
        None => None,
    }
}

/// The value of the entry of `h` with the text key `key`.
pub fn get_key<'a>(h: &'a Vec<(YamlValue, YamlValue)>, key: &str) -> (r: Option<&'a YamlValue>)
    ensures
        match r {
            Some(v) => exists|i: int| first_key(h@, YamlModel::Str(key@), i) && *v == h@[i].1,
            None => no_key(h@, YamlModel::Str(key@)),
        },
        match get_key_spec(h@, key@) {
            Some(v) => r == Some(&v),
            None => r is None,
        },
{
    let k = YamlValue::String(key.to_owned());
    let r = hash_get(h, &k);
    proof {
        if r is Some {
            let i = choose|i: int| first_key(h@, YamlModel::Str(key@), i) && *r->0 == h@[i].1;
            let j = choose|j: int| first_key(h@, YamlModel::Str(key@), j);
            lemma_first_key_unique(h@, YamlModel::Str(key@), i, j);
        }
    }
    r
}

// ---------------------------------------------------------------------------
// Numbers
// ---------------------------------------------------------------------------

/// `s` without the character `c`.
pub open spec fn without(s: Seq<char>, c: char) -> Seq<char>
    decreases s.len(),
{
    if s.len() == 0 {
        s
    } else if s.last() == c {
        without(s.drop_last(), c)
    } else {
        without(s.drop_last(), c).push(s.last())
    }
}

/// `s` with each `from` written as `to`.
pub open spec fn swap_char(s: Seq<char>, from: char, to: char) -> Seq<char> {
    Seq::new(s.len(), |i: int| if s[i] == from { to } else { s[i] })
}

/// `s` with ASCII capitals written in lower case.
pub open spec fn lower_ascii(s: Seq<char>) -> Seq<char> {
    Seq::new(s.len(), |i: int| if 'A' <= s[i] <= 'Z' { ((s[i] as int) + 32) as char } else { s[i] })
}

/// The value of a digit in radix `radix` (2, 10 or 16), if it is one.
pub open spec fn digit_in(c: char, radix: int) -> Option<int> {
    if '0' <= c <= '9' && (c as int) - ('0' as int) < radix {
        Some((c as int) - ('0' as int))
    } else if radix == 16 && 'a' <= c <= 'f' {
        Some((c as int) - ('a' as int) + 10)
    } else if radix == 16 && 'A' <= c <= 'F' {
        Some((c as int) - ('A' as int) + 10)
    } else {
        None
    }
}

/// Every character of `s` is a digit in radix `radix`.
pub open spec fn all_digits_in(s: Seq<char>, radix: int) -> bool {
    forall|i: int| 0 <= i < s.len() ==> (#[trigger] digit_in(s[i], radix)) is Some
}

/// The value of the digits `s` in radix `radix`.
pub open spec fn value_in(s: Seq<char>, radix: int) -> int
    decreases s.len(),
{
    if s.len() == 0 {
        0
    } else {
        value_in(s.drop_last(), radix) * radix + digit_in(s.last(), radix)->0
    }
}

/// `i64::from_str_radix`: an optional sign, then at least one digit, for a
/// value that fits in 64 signed bits.
pub open spec fn from_radix_spec(s: Seq<char>, radix: int) -> Option<i64> {
    let neg = s.len() > 0 && s[0] == '-';
    let d = if s.len() > 0 && (s[0] == '+' || s[0] == '-') { s.skip(1) } else { s };
    if d.len() == 0 || !all_digits_in(d, radix) {
        None
    } else {
        let v = if neg { -value_in(d, radix) } else { value_in(d, radix) };
        if i64::MIN <= v <= i64::MAX {
            Some(v as i64)
        } else {
            None
        }
    }
}

/// The number that a text of a patch file writes: `_` are ignored; then
/// `0x` or `0X` starts a hexadecimal number, `#` (in any case) or `0b` a
/// binary one in which `x` counts as `0`, and anything else is decimal.
pub open spec fn text_number(t: Seq<char>) -> Option<i64> {
    let t = without(t, '_');
    if t.len() >= 2 && t[0] == '0' && (t[1] == 'x' || t[1] == 'X') {
        from_radix_spec(t.skip(2), 16)
    } else if t.len() >= 1 && t[0] == '#' {
        from_radix_spec(swap_char(lower_ascii(t).skip(1), 'x', '0'), 2)
    } else if t.len() >= 2 && t[0] == '0' && t[1] == 'b' {
        from_radix_spec(swap_char(t.skip(2), 'x', '0'), 2)
    } else {
        from_radix_spec(t, 10)
    }
}

/// The number that a value writes: an integer, or a text read by
/// [`text_number`].
pub open spec fn number_spec(y: YamlModel) -> Option<i64> {
    match y {
        YamlModel::Integer(i) => Some(i),
        YamlModel::Str(t) => text_number(t),
        _ => None,
    }
}

/// The flag that a value writes: a flag, the integers 0 and 1, or the texts
/// `true`, `True`, `false`, `False`.
pub open spec fn flag_spec(y: YamlModel) -> Option<bool> {
    match y {
        YamlModel::Boolean(b) => Some(b),
        YamlModel::Integer(i) => if i == 0 {
            Some(false)
        } else if i == 1 {
            Some(true)
        } else {
            None
        },
        YamlModel::Str(t) => if t == "true"@ || t == "True"@ {
            Some(true)
        } else if t == "false"@ || t == "False"@ {
            Some(false)
        } else {
            None
        },
        _ => None,
    }
}

/// The value of a digit character in radix `radix`.
fn digit_value(c: char, radix: u32) -> (r: Option<u32>)
    requires
        radix == 2 || radix == 10 || radix == 16,
    ensures
        match digit_in(c, radix as int) {
            Some(v) => r == Some(v as u32),
            None => r is None,
        },
{
    if '0' <= c && c <= '9' && (c as u32) - ('0' as u32) < radix {
        Some((c as u32) - ('0' as u32))
    } else if radix == 16 && 'a' <= c && c <= 'f' {
        Some((c as u32) - ('a' as u32) + 10)
    } else if radix == 16 && 'A' <= c && c <= 'F' {
        Some((c as u32) - ('A' as u32) + 10)
    } else {
        None
    }
}

/// The value of digits in radix `radix` grows with each digit.
proof fn lemma_value_in_bound(s: Seq<char>, radix: int, k: int)
    requires
        2 <= radix,
        0 <= k <= s.len(),
        all_digits_in(s, radix),
    ensures
        0 <= value_in(s.take(k), radix) <= value_in(s, radix),
    decreases s.len(),
{
    if s.len() > 0 {
        if k == s.len() {
            assert(s.take(k) =~= s);
            lemma_value_in_bound(s.drop_last(), radix, 0);
            assert(s.drop_last().take(0) =~= Seq::<char>::empty());
        } else {
            assert(all_digits_in(s.drop_last(), radix)) by {
                assert forall|i: int| 0 <= i < s.drop_last().len() implies (#[trigger] digit_in(
                    s.drop_last()[i],
                    radix,
                )) is Some by {
                    assert(s.drop_last()[i] == s[i]);
                }
            }
            lemma_value_in_bound(s.drop_last(), radix, k);
            assert(s.drop_last().take(k) =~= s.take(k));
            assert(digit_in(s.last(), radix) is Some);
            assert(value_in(s.drop_last(), radix) * radix >= value_in(s.drop_last(), radix)) by (nonlinear_arith)
                requires
                    value_in(s.drop_last(), radix) >= 0,
                    radix >= 2,
            ;
        }
    }
}

/// `i64::from_str_radix` for radix 2, 10 or 16.
pub fn from_radix(s: &[char], radix: u32) -> (r: Option<i64>)
    requires
        radix == 2 || radix == 10 || radix == 16,
    ensures
        r == from_radix_spec(s@, radix as int),
{
    let n = s.len();
    let neg = n > 0 && s[0] == '-';
    let start: usize = if n > 0 && (s[0] == '+' || s[0] == '-') { 1 } else { 0 };
    let ghost d = s@.skip(start as int);
    assert(d == (if s@.len() > 0 && (s@[0] == '+' || s@[0] == '-') { s@.skip(1) } else { s@ }));
    if start == n {
        return None;
    }
    let mut acc: u64 = 0;
    let mut i: usize = start;
    let limit: u64 = 0x8000_0000_0000_0000;
    while i < n
        invariant
            n == s@.len(),
            start <= i <= n,
            start < n,
            d == s@.skip(start as int),
            d == (if s@.len() > 0 && (s@[0] == '+' || s@[0] == '-') { s@.skip(1) } else { s@ }),
            limit == 0x8000_0000_0000_0000u64,
            radix == 2 || radix == 10 || radix == 16,
            acc <= limit,
            all_digits_in(d.take(i - start), radix as int),
            acc == value_in(d.take(i - start), radix as int),
        decreases n - i,
    {
        let c = s[i];
        let dv = match digit_value(c, radix) {
            Some(v) => v,
            None => {
                assert(d[i - start] == c);
                assert(digit_in(d[i - start], radix as int) is None);
                assert(!all_digits_in(d, radix as int));
                return None;
            },
        };
        assert(d.take(i - start + 1).drop_last() =~= d.take(i - start));
        assert(d.take(i - start + 1).last() == c);
        assert(all_digits_in(d.take(i - start + 1), radix as int)) by {
            assert forall|j: int| 0 <= j < d.take(i - start + 1).len() implies (#[trigger] digit_in(
                d.take(i - start + 1)[j],
                radix as int,
            )) is Some by {
                if j < i - start {
                    assert(d.take(i - start + 1)[j] == d.take(i - start)[j]);
                }
            }
        }
        assert(dv < 16);
        let room: u64 = (limit - dv as u64) / (radix as u64);
        if acc > room {
            proof {
                assert(acc * radix + dv > limit) by (nonlinear_arith)
                    requires
                        acc > (limit - dv) / (radix as int),
                        radix >= 2,
                        dv < radix,
                        limit >= dv,
                ;
                let t = d.take(i - start + 1);
                assert(value_in(t, radix as int) == acc * radix + dv);
                if all_digits_in(d, radix as int) {
                    lemma_value_in_bound(d, radix as int, i - start + 1);
                }
            }
            return None;
        }
        assert(acc * radix + dv <= limit) by (nonlinear_arith)
            requires
                acc <= (limit - dv) / (radix as int),
                radix >= 2,
                limit >= dv,
        ;
        acc = acc * (radix as u64) + dv as u64;
        i += 1;
    }
    assert(d.take(n - start) =~= d);
    if neg {
        if acc == limit {
            Some(i64::MIN)
        } else {
            Some(-(acc as i64))
        }
    } else {
        if acc == limit {
            None
        } else {
            Some(acc as i64)
        }
    }
}

/// The characters of `t` without `_`.
fn drop_underscores(t: &[char]) -> (r: Vec<char>)
    ensures
        r@ == without(t@, '_'),
{
    let mut out: Vec<char> = Vec::new();
    let mut i: usize = 0;
    while i < t.len()
        invariant
            i <= t@.len(),
            out@ == without(t@.take(i as int), '_'),
        decreases t@.len() - i,
    {
        assert(t@.take(i + 1).drop_last() =~= t@.take(i as int));
        if t[i] != '_' {
            out.push(t[i]);
        }
        i += 1;
    }
    assert(t@.take(t@.len() as int) =~= t@);
    out
}

/// The characters of `t` after the first `k`, `from` written as `to`, and,
/// if `lower`, ASCII capitals in lower case first.
fn tail_swapped(t: &Vec<char>, k: usize, lower: bool, from: char, to: char) -> (r: Vec<char>)
    requires
        k <= t@.len(),
    ensures
        r@ == swap_char(if lower { lower_ascii(t@) } else { t@ }.skip(k as int), from, to),
{
    let ghost src = if lower { lower_ascii(t@) } else { t@ };
    let mut out: Vec<char> = Vec::new();
    let mut i: usize = k;
    while i < t.len()
        invariant
            k <= i <= t@.len(),
            src == if lower { lower_ascii(t@) } else { t@ },
            out@ =~= swap_char(src.skip(k as int).take(i - k), from, to),
        decreases t@.len() - i,
    {
        let mut c = t[i];
        if lower && 'A' <= c && c <= 'Z' {
            c = ((c as u8) + 32) as char;
        }
        assert(c == src[i as int]);
        if c == from {
            c = to;
        }
        out.push(c);
        i += 1;
    }
    assert(src.skip(k as int).take(t@.len() - k) =~= src.skip(k as int));
    out
}

/// The number that a text of a patch file writes (see [`text_number`]).
pub fn parse_number_text(text: &str) -> (r: Option<i64>)
    ensures
        r == text_number(text@),
{
    let raw = chars_of(text);
    let t = drop_underscores(raw.as_slice());
    let n = t.len();
    if n >= 2 && t[0] == '0' && (t[1] == 'x' || t[1] == 'X') {
        let rest = tail_swapped(&t, 2, false, 'x', 'x');
        assert(rest@ =~= t@.skip(2));
        from_radix(rest.as_slice(), 16)
    } else if n >= 1 && t[0] == '#' {
        let rest = tail_swapped(&t, 1, true, 'x', '0');
        from_radix(rest.as_slice(), 2)
    } else if n >= 2 && t[0] == '0' && t[1] == 'b' {
        let rest = tail_swapped(&t, 2, false, 'x', '0');
        from_radix(rest.as_slice(), 2)
    } else {
        from_radix(t.as_slice(), 10)
    }
}

/// Reads an integer out of a value (see [`number_spec`]).
pub fn parse_i64(val: &YamlValue) -> (r: Option<i64>)
    ensures
        r == number_spec(model(*val)),
{
    match val {
        YamlValue::Integer(i) => Some(*i),
        YamlValue::String(text) => parse_number_text(text.as_str()),
        _ => None,
    }
}

/// Reads a flag out of a value (see [`flag_spec`]).
pub fn parse_bool(val: &YamlValue) -> (r: Option<bool>)
    ensures
        r == flag_spec(model(*val)),
{
    match val {
        YamlValue::Boolean(b) => Some(*b),
        YamlValue::Integer(i) => if *i == 0 {
            Some(false)
        } else if *i == 1 {
            Some(true)
        } else {
            None
        },
        YamlValue::String(text) => {
            let t = text.as_str();
            if str_eq(t, "true") || str_eq(t, "True") {
                Some(true)
            } else if str_eq(t, "false") || str_eq(t, "False") {
                Some(false)
            } else {
                None
            }
        },
        _ => None,
    }
}

/// The value of the entry with the text key `key`, read as an integer.
pub fn get_i64(h: &Vec<(YamlValue, YamlValue)>, key: &str) -> (r: Option<i64>)
    ensures
        match get_key_spec(h@, key@) {
            Some(v) => r == number_spec(model(v)),
            None => r is None,
        },
{
    match get_key(h, key) {
        Some(v) => parse_i64(v),
        None => None,
    }
}

/// The value of the entry with the text key `key`, read as a flag.
pub fn get_bool(h: &Vec<(YamlValue, YamlValue)>, key: &str) -> (r: Option<bool>)
    ensures
        match get_key_spec(h@, key@) {
            Some(v) => r == flag_spec(model(v)),
            None => r is None,
        },
{
    match get_key(h, key) {
        Some(v) => parse_bool(v),
        None => None,
    }
}

/// The value of the entry with the text key `key`, if it is a text.
pub fn get_str<'a>(h: &'a Vec<(YamlValue, YamlValue)>, key: &str) -> (r: Option<&'a str>)
    ensures
        match get_key_spec(h@, key@) {
            Some(YamlValue::String(s)) => r matches Some(t) && t@ == s@,
            _ => r is None,
        },
{
    match get_key(h, key) {
        Some(v) => v.as_str(),
        None => None,
    }
}

/// The value of the entry with the text key `key`, if it is a mapping.
pub fn get_hash<'a>(h: &'a Vec<(YamlValue, YamlValue)>, key: &str) -> (r: Option<&'a Vec<(YamlValue, YamlValue)>>)
    ensures
        match get_key_spec(h@, key@) {
            Some(YamlValue::Hash(m)) => r == Some(&m),
            _ => r is None,
        },
{
    match get_key(h, key) {
        Some(v) => v.as_hash(),
        None => None,
    }
}

/// The value of the entry with the text key `key`, if it is a list.
pub fn get_vec<'a>(h: &'a Vec<(YamlValue, YamlValue)>, key: &str) -> (r: Option<&'a Vec<YamlValue>>)
    ensures
        match get_key_spec(h@, key@) {
            Some(YamlValue::Array(m)) => r == Some(&m),
            _ => r is None,
        },
{
    match get_key(h, key) {
        Some(v) => v.as_vec(),
        None => None,
    }
}

/// At most one entry is the first with a given key.
pub proof fn lemma_first_key_unique(h: Seq<(YamlValue, YamlValue)>, key: YamlModel, i: int, j: int)
    requires
        first_key(h, key, i),
        first_key(h, key, j),
    ensures
        i == j,
{
}

/// The value of the first entry of `h` with the text key `key`.
pub open spec fn get_key_spec(h: Seq<(YamlValue, YamlValue)>, key: Seq<char>) -> Option<YamlValue> {
    if exists|i: int| first_key(h, YamlModel::Str(key), i) {
        Some(h[choose|i: int| first_key(h, YamlModel::Str(key), i)].1)
    } else {
        None
    }
}

} // verus!
