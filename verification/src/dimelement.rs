use vstd::prelude::*;
use std::ops::RangeInclusive;

use crate::text::{
    lemma_decimal_no, lemma_parse_decimal, chars_of, decimal, owned, parse_u32, parse_u32_spec, push_char, split_chars, split_spec,
    strings_view, u32_to_string,
};
use crate::{empty_to_none, is_uninit, nonempty_seq, nonempty_text, BuildError, EnumeratedValue, SvdError, ValidateLevel};

verus! {

/// Defines arrays and lists.
#[derive(Clone, Debug, PartialEq, Eq)]
pub struct DimElement {
    /// Defines the number of elements in an array or list
    pub dim: u32,
    /// Specify the address increment between two neighboring array or list members in the address map
    pub dim_increment: u32,
    /// Specify the strings that substitue the placeholder `%s` within `name` and `displayName`.
    /// By default, <dimIndex> is a value starting with 0
    pub dim_index: Option<Vec<String>>,
    /// Specify the name of the structure. If not defined, then the entry of the `name` element is used
    pub dim_name: Option<String>,
    /// Grouping element to create enumerations in the header file
    pub dim_array_index: Option<DimArrayIndex>,
}

/// Grouping element to create enumerations in the header file
#[derive(Clone, Debug, PartialEq, Eq)]
pub struct DimArrayIndex {
    /// Specify the base name of enumerations
    pub header_enum_name: Option<String>,
    /// Specify the values contained in the enumeration
    pub values: Vec<EnumeratedValue>,
}

/// The texts of an optional list of strings.
pub open spec fn opt_texts(o: Option<Vec<String>>) -> Option<Seq<Seq<char>>> {
    match o {
        Some(v) => Some(strings_view(v@)),
        None => None,
    }
}

/// The contents of a [`DimElement`].
pub struct DimElementModel {
    /// Number of elements
    pub dim: u32,
    /// Address increment between neighbours
    pub dim_increment: u32,
    /// The index texts
    pub dim_index: Option<Seq<Seq<char>>>,
    /// The name of the structure
    pub dim_name: Option<String>,
    /// The enumeration of the header file
    pub dim_array_index: Option<DimArrayIndex>,
}

impl View for DimElement {
    type V = DimElementModel;

    open spec fn view(&self) -> DimElementModel {
        DimElementModel {
            dim: self.dim,
            dim_increment: self.dim_increment,
            dim_index: opt_texts(self.dim_index),
            dim_name: self.dim_name,
            dim_array_index: self.dim_array_index,
        }
    }
}

/// Builder for [`DimElement`]
#[derive(Clone, Debug, PartialEq, Eq)]
pub struct DimElementBuilder {
    /// The number of elements, if set.
    pub dim: Option<u32>,
    /// The address increment, if set.
    pub dim_increment: Option<u32>,
    /// The index texts.
    pub dim_index: Option<Vec<String>>,
    /// The name of the structure.
    pub dim_name: Option<String>,
    /// The enumeration of the header file.
    pub dim_array_index: Option<DimArrayIndex>,
}

/// The contents of a [`DimElementBuilder`].
pub struct DimElementBuilderModel {
    /// The number of elements, if set.
    pub dim: Option<u32>,
    /// The address increment, if set.
    pub dim_increment: Option<u32>,
    /// The index texts.
    pub dim_index: Option<Seq<Seq<char>>>,
    /// The name of the structure.
    pub dim_name: Option<String>,
    /// The enumeration of the header file.
    pub dim_array_index: Option<DimArrayIndex>,
}

impl View for DimElementBuilder {
    type V = DimElementBuilderModel;

    open spec fn view(&self) -> DimElementBuilderModel {
        DimElementBuilderModel {
            dim: self.dim,
            dim_increment: self.dim_increment,
            dim_index: opt_texts(self.dim_index),
            dim_name: self.dim_name,
            dim_array_index: self.dim_array_index,
        }
    }
}

impl DimElementBuilderModel {
    /// The builder that sets nothing.
    pub open spec fn empty() -> Self {
        DimElementBuilderModel { dim: None, dim_increment: None, dim_index: None, dim_name: None, dim_array_index: None }
    }

    /// The builder that holds every value of `d`.
    pub open spec fn from_model(d: DimElementModel) -> Self {
        DimElementBuilderModel {
            dim: Some(d.dim),
            dim_increment: Some(d.dim_increment),
            dim_index: d.dim_index,
            dim_name: d.dim_name,
            dim_array_index: d.dim_array_index,
        }
    }

    /// The element that a complete builder describes: empty index lists and
    /// empty names count as none.
    pub open spec fn built(self) -> DimElementModel {
        DimElementModel {
            dim: self.dim->0,
            dim_increment: self.dim_increment->0,
            dim_index: nonempty_seq(self.dim_index),
            dim_name: nonempty_text(self.dim_name),
            dim_array_index: self.dim_array_index,
        }
    }
}

impl Default for DimElementBuilder {
    fn default() -> (r: Self)
        ensures
            r@ == DimElementBuilderModel::empty(),
    {
        DimElementBuilder { dim: None, dim_increment: None, dim_index: None, dim_name: None, dim_array_index: None }
    }
}

impl From<DimElement> for DimElementBuilder {
    fn from(d: DimElement) -> (r: Self)
        ensures
            r == Self::from_element(d),
    {
        DimElementBuilder {
            dim: Some(d.dim),
            dim_increment: Some(d.dim_increment),
            dim_index: d.dim_index,
            dim_name: d.dim_name,
            dim_array_index: d.dim_array_index,
        }
    }
}

impl vstd::std_specs::convert::FromSpecImpl<DimElement> for DimElementBuilder {
    open spec fn obeys_from_spec() -> bool {
        true
    }

    open spec fn from_spec(d: DimElement) -> Self {
        Self::from_element(d)
    }
}

impl DimElementBuilder {
    /// The builder that holds every value of `d`; its view is
    /// `DimElementBuilderModel::from_model(d@)`.
    pub open spec fn from_element(d: DimElement) -> Self {
        DimElementBuilder {
            dim: Some(d.dim),
            dim_increment: Some(d.dim_increment),
            dim_index: d.dim_index,
            dim_name: d.dim_name,
            dim_array_index: d.dim_array_index,
        }
    }
}

/// Turns an empty list of texts into `None`.
fn empty_texts_to_none(o: Option<Vec<String>>) -> (r: Option<Vec<String>>)
    ensures
        opt_texts(r) == nonempty_seq(opt_texts(o)),
{
    match o {
        Some(v) => if v.len() == 0 { None } else { Some(v) },
        None => None,
    }
}

impl DimElementBuilder {
    /// Set the dim of the elements
    pub fn dim(self, value: u32) -> (r: Self)
        ensures
            r@ == (DimElementBuilderModel { dim: Some(value), ..self@ }),
    {
        DimElementBuilder { dim: Some(value), ..self }
    }

    /// Set the dim increment of the elements
    pub fn dim_increment(self, value: u32) -> (r: Self)
        ensures
            r@ == (DimElementBuilderModel { dim_increment: Some(value), ..self@ }),
    {
        DimElementBuilder { dim_increment: Some(value), ..self }
    }

    /// Set the dim index of the elements
    pub fn dim_index(self, value: Option<Vec<String>>) -> (r: Self)
        ensures
            r@ == (DimElementBuilderModel { dim_index: opt_texts(value), ..self@ }),
    {
        DimElementBuilder { dim_index: value, ..self }
    }

    /// Set the dim name of the elements
    pub fn dim_name(self, value: Option<String>) -> (r: Self)
        ensures
            r@ == (DimElementBuilderModel { dim_name: value, ..self@ }),
    {
        DimElementBuilder { dim_name: value, ..self }
    }

    /// Set the dim_array_index of the elements
    pub fn dim_array_index(self, value: Option<DimArrayIndex>) -> (r: Self)
        ensures
            r@ == (DimElementBuilderModel { dim_array_index: value, ..self@ }),
    {
        DimElementBuilder { dim_array_index: value, ..self }
    }

    /// Validate and build a [`DimElement`]: `dim`, then `dim_increment`, must
    /// be set.
    pub fn build(self, lvl: ValidateLevel) -> (r: Result<DimElement, SvdError>)
        ensures
            self.dim is None ==> is_uninit(r, "dim"@),
            self.dim is Some && self.dim_increment is None ==> is_uninit(r, "dim_increment"@),
            self.dim is Some && self.dim_increment is Some ==> (r matches Ok(d) && d@ == self@.built()),
    {
        let dim = match self.dim {
            Some(v) => v,
            None => return Err(SvdError::Build(BuildError::Uninitialized(owned("dim")))),
        };
        let dim_increment = match self.dim_increment {
            Some(v) => v,
            None => return Err(SvdError::Build(BuildError::Uninitialized(owned("dim_increment")))),
        };
        let de = DimElement {
            dim,
            dim_increment,
            dim_index: empty_texts_to_none(self.dim_index),
            dim_name: empty_to_none(self.dim_name),
            dim_array_index: self.dim_array_index,
        };
        match de.validate(lvl) {
            Ok(()) => {},
            Err(e) => return Err(e),
        }
        Ok(de)
    }
}

// ---------------------------------------------------------------------------
// Index lists
// ---------------------------------------------------------------------------

/// `k` is the position of the first `-` of `t`.
pub open spec fn first_dash(t: Seq<char>, k: int) -> bool {
    0 <= k < t.len() && t[k] == '-' && forall|j: int| 0 <= j < k ==> t[j] != '-'
}

/// `a-z`.
pub open spec fn is_lower(c: char) -> bool {
    'a' <= c && c <= 'z'
}

/// `A-Z`.
pub open spec fn is_upper(c: char) -> bool {
    'A' <= c && c <= 'Z'
}

/// The index texts of a range `a-b` of numbers or of letters, if it is one.
pub open spec fn index_range_spec(a: Seq<char>, b: Seq<char>) -> Option<Seq<Seq<char>>> {
    if parse_u32_spec(a) is Some && parse_u32_spec(b) is Some {
        let x = parse_u32_spec(a)->0;
        let y = parse_u32_spec(b)->0;
        if x <= y {
            Some(Seq::new((y - x + 1) as nat, |i: int| decimal((x + i) as nat)))
        } else {
            None
        }
    } else if a.len() == 1 && b.len() == 1 && ((is_lower(a[0]) && is_lower(b[0])) || (is_upper(a[0])
        && is_upper(b[0]))) {
        if a[0] <= b[0] {
            Some(Seq::new((b[0] as int - a[0] as int + 1) as nat, |i: int| seq![(a[0] as int + i) as char]))
        } else {
            None
        }
    } else {
        None
    }
}

/// The index texts that a `dimIndex` text describes: `a-b` is an inclusive
/// range of numbers or of single letters of one case, split at the first
/// `-`; any other text is a `,`-separated list. An empty range is no list.
pub open spec fn parse_indexes_spec(t: Seq<char>) -> Option<Seq<Seq<char>>> {
    if t.contains('-') {
        let k = choose|k: int| first_dash(t, k);
        index_range_spec(t.take(k), t.skip(k + 1))
    } else {
        Some(split_spec(t, ','))
    }
}

/// The texts of the numbers `x..=y`.
fn number_range(x: u32, y: u32) -> (r: Vec<String>)
    requires
        x <= y,
    ensures
        strings_view(r@) =~= Seq::new((y - x + 1) as nat, |i: int| decimal((x + i) as nat)),
{
    let mut v: Vec<String> = Vec::new();
    let mut cur: u64 = x as u64;
    while cur <= y as u64
        invariant
            x <= cur <= y as u64 + 1,
            strings_view(v@) =~= Seq::new((cur - x) as nat, |i: int| decimal((x + i) as nat)),
        decreases y as u64 + 1 - cur,
    {
        let ghost before = strings_view(v@);
        v.push(u32_to_string(cur as u32));
        assert(strings_view(v@) =~= before.push(decimal(cur as nat)));
        cur += 1;
    }
    v
}

/// The one-letter texts of `a..=b`.
fn letter_range(a: char, b: char) -> (r: Vec<String>)
    requires
        a <= b <= 'z',
        'A' <= a,
    ensures
        strings_view(r@) =~= Seq::new((b as int - a as int + 1) as nat, |i: int| seq![(a as int + i) as char]),
{
    let mut v: Vec<String> = Vec::new();
    let mut cur: u32 = a as u32;
    let end: u32 = b as u32;
    while cur <= end
        invariant
            a as u32 <= cur <= end + 1,
            end == b as u32,
            end <= 'z' as u32,
            strings_view(v@) =~= Seq::new((cur - a as u32) as nat, |i: int| seq![(a as int + i) as char]),
        decreases end + 1 - cur,
    {
        let c: char = (cur as u8) as char;
        assert(c == (a as int + (cur - a as u32)) as char);
        let mut s = String::new();
        push_char(&mut s, c);
        assert(s@ =~= seq![c]);
        let ghost before = strings_view(v@);
        v.push(s);
        assert(strings_view(v@) =~= before.push(seq![c]));
        cur += 1;
    }
    v
}

impl DimElement {
    /// Make a builder for [`DimElement`]
    pub fn builder() -> (r: DimElementBuilder)
        ensures
            r@ == DimElementBuilderModel::empty(),
    {
        DimElementBuilder::default()
    }

    /// Get array of indexes from string
    pub fn parse_indexes(text: &str) -> (r: Option<Vec<String>>)
        ensures
            opt_texts(r) == parse_indexes_spec(text@),
    {
        let t = chars_of(text);
        let n = t.len();
        let mut k: usize = 0;
        while k < n && t[k] != '-'
            invariant
                n == t@.len(),
                k <= n,
                forall|j: int| 0 <= j < k ==> t@[j] != '-',
            decreases n - k,
        {
            k += 1;
        }
        if k == n {
            assert(!text@.contains('-'));
            let parts = split_chars(t.as_slice(), ',');
            return Some(parts);
        }
        assert(first_dash(text@, k as int));
        assert(text@.contains('-'));
        proof {
            let c = choose|c: int| first_dash(text@, c);
            assert(c == k) by {
                if c < k {
                    assert(text@[c] != '-');
                } else if c > k {
                    assert(text@[k as int] != '-');
                }
            }
        }
        let mut a: Vec<char> = Vec::new();
        let mut i: usize = 0;
        while i < k
            invariant
                n == t@.len(),
                k < n,
                i <= k,
                a@ =~= t@.take(i as int),
            decreases k - i,
        {
            a.push(t[i]);
            i += 1;
        }
        let mut b: Vec<char> = Vec::new();
        let mut i: usize = k + 1;
        while i < n
            invariant
                n == t@.len(),
                k < n,
                k + 1 <= i <= n,
                b@ =~= t@.subrange(k + 1, i as int),
            decreases n - i,
        {
            b.push(t[i]);
            i += 1;
        }
        assert(b@ =~= t@.skip(k + 1));
        let pa = parse_u32(a.as_slice());
        let pb = parse_u32(b.as_slice());
        match (pa, pb) {
            (Some(x), Some(y)) => {
                if x <= y {
                    Some(number_range(x, y))
                } else {
                    None
                }
            },
            _ => {
                if a.len() == 1 && b.len() == 1 {
                    let ca = a[0];
                    let cb = b[0];
                    let lower = 'a' <= ca && ca <= 'z' && 'a' <= cb && cb <= 'z';
                    let upper = 'A' <= ca && ca <= 'Z' && 'A' <= cb && cb <= 'Z';
                    if (lower || upper) && ca <= cb {
                        Some(letter_range(ca, cb))
                    } else {
                        None
                    }
                } else {
                    None
                }
            },
        }
    }
}


/// The index texts of the elements: the `dimIndex` texts where there are
/// some, else `0`, `1`, ... in decimal.
pub open spec fn indexes_spec(d: DimElementModel) -> Seq<Seq<char>> {
    Seq::new(
        d.dim as nat,
        |i: int|
            match d.dim_index {
                Some(v) => v[i],
                None => decimal(i as nat),
            },
    )
}

/// There is an index text for each element.
pub open spec fn indexes_cover(d: DimElementModel) -> bool {
    d.dim_index matches Some(v) ==> v.len() >= d.dim
}

/// `t` is the decimal text of a `u32` without leading zeros or sign.
pub open spec fn canonical_u32(t: Seq<char>) -> bool {
    parse_u32_spec(t) is Some && decimal(parse_u32_spec(t)->0 as nat) == t
}

/// The start of the range of consecutive integers that the index texts of
/// `d` spell, if they do: every text is canonical, there is at least one,
/// and each is one more than the one before.
pub open spec fn index_range_start(d: DimElementModel) -> Option<u32> {
    let idx = indexes_spec(d);
    if d.dim > 0 && (forall|i: int| 0 <= i < idx.len() ==> #[trigger] canonical_u32(idx[i]))
        && (forall|i: int|
        0 <= i < idx.len() ==> parse_u32_spec(#[trigger] idx[i])->0 == parse_u32_spec(idx[0])->0 + i) {
        Some(parse_u32_spec(idx[0])->0)
    } else {
        None
    }
}

impl DimElement {
    /// Validate the [`DimElement`].
    ///
    /// # Notes
    ///
    /// This doesn't do anything.
    pub fn validate(&self, _lvl: ValidateLevel) -> (r: Result<(), SvdError>)
        ensures
            r is Ok,
    {
        Ok(())
    }

    /// Modify an existing [`DimElement`] based on a [builder](DimElementBuilder).
    pub fn modify_from(&mut self, builder: DimElementBuilder, lvl: ValidateLevel) -> (r: Result<(), SvdError>)
        ensures
            r is Ok,
            final(self)@ == (DimElementModel {
                dim: if builder.dim is Some { builder.dim->0 } else { old(self).dim },
                dim_increment: if builder.dim_increment is Some { builder.dim_increment->0 } else { old(self).dim_increment },
                dim_index: if builder@.dim_index is Some { nonempty_seq(builder@.dim_index) } else { old(self)@.dim_index },
                dim_name: if builder.dim_name is Some { nonempty_text(builder.dim_name) } else { old(self).dim_name },
                dim_array_index: if builder.dim_array_index is Some { builder.dim_array_index } else { old(self).dim_array_index },
            }),
    {
        if let Some(dim) = builder.dim {
            self.dim = dim;
        }
        if let Some(dim_increment) = builder.dim_increment {
            self.dim_increment = dim_increment;
        }
        if builder.dim_index.is_some() {
            self.dim_index = empty_texts_to_none(builder.dim_index);
        }
        if builder.dim_name.is_some() {
            self.dim_name = empty_to_none(builder.dim_name);
        }
        if builder.dim_array_index.is_some() {
            self.dim_array_index = builder.dim_array_index;
        }
        self.validate(lvl)
    }

    /// Get the indexes of the array or list.
    pub fn indexes(&self) -> (r: Vec<String>)
        requires
            indexes_cover(self@),
        ensures
            strings_view(r@) == indexes_spec(self@),
    {
        let mut v: Vec<String> = Vec::new();
        let mut i: u32 = 0;
        while i < self.dim
            invariant
                i <= self.dim,
                indexes_cover(self@),
                strings_view(v@) =~= indexes_spec(self@).take(i as int),
            decreases self.dim - i,
        {
            let s = match &self.dim_index {
                Some(index) => index[i as usize].clone(),
                None => u32_to_string(i),
            };
            assert(s@ == indexes_spec(self@)[i as int]);
            let ghost before = strings_view(v@);
            v.push(s);
            assert(strings_view(v@) =~= before.push(s@));
            i += 1;
            assert(strings_view(v@) =~= indexes_spec(self@).take(i as int));
        }
        assert(indexes_spec(self@).take(self.dim as int) =~= indexes_spec(self@));
        v
    }

    /// Try to represent [`DimElement`] as range of integer indexes
    pub fn indexes_as_range(&self) -> (r: Option<RangeInclusive<u32>>)
        requires
            indexes_cover(self@),
        ensures
            match index_range_start(self@) {
                Some(s) => r matches Some(rg) && rg@.start == s && rg@.end == s + self.dim - 1
                    && !rg@.exhausted,
                None => r is None,
            },
    {
        let idx = self.indexes();
        let ghost ix = indexes_spec(self@);
        let n = idx.len();
        assert(strings_view(idx@).len() == idx@.len());
        assert(n == self.dim);
        let mut integers: Vec<u32> = Vec::new();
        let mut i: usize = 0;
        while i < n
            invariant
                n == idx@.len(),
                n == self.dim,
                ix == indexes_spec(self@),
                strings_view(idx@) == ix,
                i <= n,
                integers@.len() == i,
                forall|j: int| 0 <= j < i ==> #[trigger] canonical_u32(ix[j]),
                forall|j: int| 0 <= j < i ==> integers@[j] == parse_u32_spec(#[trigger] ix[j])->0,
            decreases n - i,
        {
            let t = chars_of(idx[i].as_str());
            assert(t@ == ix[i as int]);
            let val = match parse_u32(t.as_slice()) {
                Some(v) => v,
                None => {
                    assert(!canonical_u32(ix[i as int]));
                    return None;
                },
            };
            let back = chars_of(u32_to_string(val).as_str());
            let mut same = back.len() == t.len();
            let mut k: usize = 0;
            while same && k < t.len()
                invariant
                    same ==> back@.len() == t@.len(),
                    k <= t@.len(),
                    same ==> forall|j: int| 0 <= j < k ==> back@[j] == t@[j],
                    !same ==> back@ != t@,
                decreases t@.len() - k,
            {
                if back[k] != t[k] {
                    assert(back@[k as int] != t@[k as int]);
                    same = false;
                }
                k += 1;
            }
            if !same {
                assert(!canonical_u32(ix[i as int]));
                return None;
            }
            assert(back@ =~= t@);
            assert(canonical_u32(ix[i as int]));
            integers.push(val);
            i += 1;
        }
        if n == 0 {
            return None;
        }
        proof {
            if index_range_start(self@) is Some {
                assert forall|j: int| 0 <= j < n implies #[trigger] integers@[j] == integers@[0] + j by {
                    assert(integers@[j] == parse_u32_spec(ix[j])->0);
                    assert(integers@[0] == parse_u32_spec(ix[0])->0);
                }
            }
        }
        let mut min: u32 = integers[0];
        let mut max: u32 = integers[0];
        let mut imin: usize = 0;
        let mut imax: usize = 0;
        let mut i: usize = 1;
        while i < n
            invariant
                n == integers@.len(),
                1 <= i <= n,
                imin < i,
                imax < i,
                integers@[imin as int] == min,
                integers@[imax as int] == max,
                forall|j: int| 0 <= j < i ==> min <= #[trigger] integers@[j] <= max,
            decreases n - i,
        {
            if integers[i] < min {
                min = integers[i];
                imin = i;
            }
            if integers[i] > max {
                max = integers[i];
                imax = i;
            }
            i += 1;
        }
        proof {
            if index_range_start(self@) is Some {
                assert(integers@[imin as int] == integers@[0] + imin);
                assert(integers@[imax as int] == integers@[0] + imax);
                assert(integers@[n - 1] == integers@[0] + n - 1);
                assert(min == integers@[0]);
                assert(max == integers@[0] + n - 1);
            }
        }
        if max as u64 - min as u64 + 1 != self.dim as u64 {
            return None;
        }
        let mut i: usize = 0;
        while i < n
            invariant
                n == integers@.len(),
                n == self.dim,
                i <= n,
                forall|j: int| 0 <= j < i ==> #[trigger] integers@[j] == min + j,
                index_range_start(self@) is Some ==> min == integers@[0],
                index_range_start(self@) is Some ==> forall|j: int|
                    0 <= j < n ==> #[trigger] integers@[j] == integers@[0] + j,
            decreases n - i,
        {
            if integers[i] as u64 != min as u64 + i as u64 {
                proof {
                    if index_range_start(self@) is Some {
                        assert(integers@[i as int] == integers@[0] + i);
                    }
                }
                return None;
            }
            i += 1;
        }
        proof {
            assert(integers@[0] == min);
            assert forall|j: int| 0 <= j < ix.len() implies parse_u32_spec(#[trigger] ix[j])->0
                == parse_u32_spec(ix[0])->0 + j by {
                assert(integers@[j] == parse_u32_spec(ix[j])->0);
                assert(integers@[0] == parse_u32_spec(ix[0])->0);
                assert(integers@[j] == min + j);
            }
            assert forall|j: int| 0 <= j < ix.len() implies #[trigger] canonical_u32(ix[j]) by {}
            assert(index_range_start(self@) == Some(min));
        }
        Some(RangeInclusive::new(min, max))
    }
}

/// The text `a-b` of the range of numbers from `a` to `b`.
pub open spec fn range_text(a: nat, b: nat) -> Seq<char> {
    decimal(a) + seq!['-'] + decimal(b)
}

/// Where the index texts of `d` spell a range of integers (see
/// [`DimElement::indexes_as_range`]), writing that range as `a-b` and
/// parsing it back (see [`DimElement::parse_indexes`]) gives the index
/// texts again.
pub proof fn lemma_index_range_round_trip(d: DimElementModel)
    requires
        index_range_start(d) is Some,
    ensures
        parse_indexes_spec(range_text(index_range_start(d)->0 as nat, (index_range_start(d)->0 + d.dim - 1) as nat))
            == Some(indexes_spec(d)),
{
    let s = index_range_start(d)->0;
    let idx = indexes_spec(d);
    let n = d.dim as int;
    assert(canonical_u32(idx[n - 1]));
    assert(parse_u32_spec(idx[n - 1])->0 == s + n - 1);
    let e: u32 = (s + n - 1) as u32;
    let a = decimal(s as nat);
    let b = decimal(e as nat);
    let t = range_text(s as nat, e as nat);
    lemma_decimal_no(s as nat, '-');
    lemma_decimal_no(e as nat, '-');
    assert(t[a.len() as int] == '-');
    assert forall|j: int| 0 <= j < a.len() implies t[j] != '-' by {
        assert(t[j] == a[j]);
        assert(a.contains(a[j]));
    }
    assert(first_dash(t, a.len() as int));
    assert(t.contains('-'));
    let k = choose|k: int| first_dash(t, k);
    assert(k == a.len()) by {
        if k < a.len() {
            assert(t[k] == a[k]);
            assert(a.contains(a[k]));
        }
    }
    assert(t.take(k) =~= a);
    assert(t.skip(k + 1) =~= b);
    lemma_parse_decimal(s);
    lemma_parse_decimal(e);
    let r = Seq::new((e - s + 1) as nat, |i: int| decimal((s + i) as nat));
    assert forall|i: int| 0 <= i < n implies r[i] == idx[i] by {
        assert(canonical_u32(idx[i]));
        assert(parse_u32_spec(idx[i])->0 == s + i);
    }
    assert(r =~= idx);
}

/// A letter range `a-b` (both lower case or both upper case, `a` not
/// after `b`) is inclusive: it gives `b - a + 1` texts, from `a` to `b`,
/// each one letter after the one before.
pub proof fn lemma_letter_range(a: char, b: char)
    requires
        (is_lower(a) && is_lower(b)) || (is_upper(a) && is_upper(b)),
        a <= b,
    ensures
        parse_indexes_spec(seq![a, '-', b]) matches Some(r) && {
            &&& r.len() == b as int - a as int + 1
            &&& r[0] == seq![a]
            &&& r[r.len() - 1] == seq![b]
            &&& forall|i: int| 0 <= i < r.len() ==> (#[trigger] r[i]).len() == 1 && r[i][0] as int == a as int + i
        },
{
    let t = seq![a, '-', b];
    assert(first_dash(t, 1));
    assert(t.contains('-'));
    let k = choose|k: int| first_dash(t, k);
    assert(k == 1) by {
        if k == 0 {
            assert(t[0] == a);
        } else if k > 1 {
            assert(t[1] == '-');
        }
    }
    assert(t.take(1) =~= seq![a]);
    assert(t.skip(2) =~= seq![b]);
    assert(parse_u32_spec(seq![a]) is None) by {
        assert(!crate::text::is_digit(seq![a][0]));
    }
    let r = parse_indexes_spec(t)->0;
    assert(r[r.len() - 1] =~= seq![b]) by {
        assert(((a as int + (b as int - a as int)) as char) == b);
    }
}

/// A number range `x-y` (`x` not above `y`) is inclusive: it gives
/// `y - x + 1` texts, from `x` to `y` in decimal, each one more than the
/// one before.
pub proof fn lemma_number_range(x: u32, y: u32)
    requires
        x <= y,
    ensures
        parse_indexes_spec(range_text(x as nat, y as nat)) matches Some(r) && {
            &&& r.len() == y - x + 1
            &&& r[0] == decimal(x as nat)
            &&& r[r.len() - 1] == decimal(y as nat)
            &&& forall|i: int| 0 <= i < r.len() ==> #[trigger] r[i] == decimal((x + i) as nat)
        },
{
    let a = decimal(x as nat);
    let b = decimal(y as nat);
    let t = range_text(x as nat, y as nat);
    lemma_decimal_no(x as nat, '-');
    lemma_decimal_no(y as nat, '-');
    assert(t[a.len() as int] == '-');
    assert forall|j: int| 0 <= j < a.len() implies t[j] != '-' by {
        assert(t[j] == a[j]);
        assert(a.contains(a[j]));
    }
    assert(first_dash(t, a.len() as int));
    assert(t.contains('-'));
    let k = choose|k: int| first_dash(t, k);
    assert(k == a.len()) by {
        if k < a.len() {
            assert(t[k] == a[k]);
            assert(a.contains(a[k]));
        }
    }
    assert(t.take(k) =~= a);
    assert(t.skip(k + 1) =~= b);
    lemma_parse_decimal(x);
    lemma_parse_decimal(y);
    let r = parse_indexes_spec(t)->0;
    assert(r[r.len() - 1] == decimal((x + (y - x)) as nat));
}

} // verus!
