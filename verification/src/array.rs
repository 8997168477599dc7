use vstd::prelude::*;

use crate::dimelement::{indexes_cover, indexes_spec};
use crate::text::{
    lemma_replace_absent, lemma_replace_at, lemma_replace_skip, owned, replace_spec, replace_str, strings_view,
};
use crate::{DimElement, Name};

verus! {

/// A single SVD instance or array of instances
#[derive(Clone, Debug, PartialEq, Eq)]
pub enum SingleArray<T> {
    /// A single instance
    Single(T),
    /// An array of instances
    Array(T, DimElement),
}

/// A single SVD instance or array of instances
pub type MaybeArray<T> = SingleArray<T>;

impl<T> SingleArray<T> {
    /// The described instance, whether single or the pattern of an array.
    pub open spec fn info_spec(&self) -> T {
        match self {
            SingleArray::Single(info) => *info,
            SingleArray::Array(info, _) => *info,
        }
    }

    /// The instance, whether single or the pattern of an array.
    pub fn info(&self) -> (r: &T)
        ensures
            *r == self.info_spec(),
    {
        match self {
            SingleArray::Single(info) => info,
            SingleArray::Array(info, _) => info,
        }
    }

    /// The instance, to be changed in place; an array keeps its dimensions.
    pub fn info_mut(&mut self) -> (r: &mut T)
        ensures
            *r == old(self).info_spec(),
            *final(self) == (match *old(self) {
                SingleArray::Single(_) => SingleArray::Single(*final(r)),
                SingleArray::Array(_, d) => SingleArray::Array(*final(r), d),
            }),
    {
        match self {
            SingleArray::Single(info) => info,
            SingleArray::Array(info, _) => info,
        }
    }

    /// Return `true` if instance is single
    pub fn is_single(&self) -> (r: bool)
        ensures
            r == self is Single,
    {
        match self {
            SingleArray::Single(_) => true,
            SingleArray::Array(_, _) => false,
        }
    }

    /// Return `true` if it is an array
    pub fn is_array(&self) -> (r: bool)
        ensures
            r == self is Array,
    {
        match self {
            SingleArray::Single(_) => false,
            SingleArray::Array(_, _) => true,
        }
    }
}

impl<T: Name> Name for SingleArray<T> {
    open spec fn name_spec(&self) -> Seq<char> {
        self.info_spec().name_spec()
    }

    fn name(&self) -> (r: &str) {
        self.info().name()
    }
}

/// The name of the element with index text `idx`: `[%s]`, then `%s`, is
/// replaced by the index.
pub open spec fn expand_name(name: Seq<char>, idx: Seq<char>) -> Seq<char> {
    replace_spec(replace_spec(name, "[%s]"@, idx), "%s"@, idx)
}

/// Replaces `[%s]`, then `%s`, in `text` by `idx`.
pub fn expand_text(text: &str, idx: &str) -> (r: String)
    ensures
        r@ == expand_name(text@, idx@),
{
    let bracket = "[%s]";
    let plain = "%s";
    proof {
        reveal_strlit("[%s]");
        reveal_strlit("%s");
    }
    let first = replace_str(text, bracket, idx);
    replace_str(first.as_str(), plain, idx)
}

/// The names of the elements of an array whose pattern is named `name`.
pub fn names(name: &str, dim: &DimElement) -> (r: Vec<String>)
    requires
        indexes_cover(dim@),
    ensures
        strings_view(r@) == Seq::new(
            dim.dim as nat,
            |i: int| expand_name(name@, indexes_spec(dim@)[i]),
        ),
{
    let idx = dim.indexes();
    assert(idx@.len() == dim.dim) by {
        assert(strings_view(idx@).len() == idx@.len());
    }
    let mut out: Vec<String> = Vec::new();
    let mut i: usize = 0;
    while i < idx.len()
        invariant
            i <= idx@.len(),
            idx@.len() == dim.dim,
            strings_view(idx@) == indexes_spec(dim@),
            strings_view(out@) =~= Seq::new(
                i as nat,
                |k: int| expand_name(name@, indexes_spec(dim@)[k]),
            ),
        decreases idx@.len() - i,
    {
        let n = expand_text(name, idx[i].as_str());
        let ghost before = strings_view(out@);
        out.push(n);
        assert(strings_view(out@) =~= before.push(n@));
        i += 1;
    }
    out
}

/// The descriptions of the elements of an array whose pattern is described
/// by `description`.
pub fn descriptions(description: Option<&str>, dim: &DimElement) -> (r: Vec<Option<String>>)
    requires
        indexes_cover(dim@),
    ensures
        r@.len() == dim.dim,
        forall|i: int|
            0 <= i < dim.dim ==> match description {
                Some(d) => (#[trigger] r@[i]) matches Some(s) && s@ == expand_name(
                    d@,
                    indexes_spec(dim@)[i],
                ),
                None => r@[i] is None,
            },
{
    let idx = dim.indexes();
    assert(idx@.len() == dim.dim) by {
        assert(strings_view(idx@).len() == idx@.len());
    }
    let mut out: Vec<Option<String>> = Vec::new();
    let mut i: usize = 0;
    while i < idx.len()
        invariant
            i <= idx@.len(),
            idx@.len() == dim.dim,
            strings_view(idx@) == indexes_spec(dim@),
            out@.len() == i,
            forall|k: int|
                0 <= k < i ==> match description {
                    Some(d) => (#[trigger] out@[k]) matches Some(s) && s@ == expand_name(
                        d@,
                        indexes_spec(dim@)[k],
                    ),
                    None => out@[k] is None,
                },
        decreases idx@.len() - i,
    {
        let d = match description {
            Some(d) => Some(expand_text(d, idx[i].as_str())),
            None => None,
        };
        out.push(d);
        i += 1;
    }
    out
}

/// An owned copy of an optional text.
pub fn owned_opt(o: Option<&str>) -> (r: Option<String>)
    ensures
        match o {
            Some(s) => r matches Some(t) && t@ == s@,
            None => r is None,
        },
{
    match o {
        Some(s) => Some(owned(s)),
        None => None,
    }
}

/// Expanding a name of the form `x[%s]y` with the index `i` gives `xiy`:
/// the brackets go with the placeholder (where the name, the rest and the
/// index hold no `%`).
pub proof fn lemma_expand_bracketed(x: Seq<char>, y: Seq<char>, i: Seq<char>)
    requires
        !x.contains('%'),
        !y.contains('%'),
        !i.contains('%'),
    ensures
        expand_name(x + "[%s]"@ + y, i) == x + i + y,
{
    reveal_strlit("[%s]");
    reveal_strlit("%s");
    let b = "[%s]"@;
    let t = b + y;
    assert(x + b + y =~= x + t);
    assert forall|k: int| 0 <= k < x.len() && k + b.len() <= x.len() + t.len() implies !((x + t).skip(k).take(
        b.len() as int,
    ) =~= b) by {
        if (x + t).skip(k).take(b.len() as int) =~= b {
            let w = (x + t).skip(k).take(b.len() as int);
            assert(w[1] == b[1]);
            assert(w[1] == (x + t)[k + 1]);
            assert((x + t)[k + 1] == '%');
            if k + 1 < x.len() {
                assert(x[k + 1] == '%');
            } else {
                assert((x + t)[k + 1] == t[0]);
            }
        }
    }
    lemma_replace_skip(x, t, b, i);
    lemma_replace_at(y, b, i);
    assert(b[1] == '%');
    lemma_replace_absent(y, b, i, '%');
    let once = x + (i + y);
    assert(once =~= x + i + y);
    assert(!once.contains('%')) by {
        if once.contains('%') {
            let k = choose|k: int| 0 <= k < once.len() && once[k] == '%';
            if k < x.len() {
                assert(x[k] == '%');
            } else if k < x.len() + i.len() {
                assert(i[k - x.len()] == '%');
            } else {
                assert(y[k - x.len() - i.len()] == '%');
            }
        }
    }
    assert("%s"@[0] == '%');
    lemma_replace_absent(once, "%s"@, i, '%');
}

/// Expanding a name of the form `x%sy` with the index `i` gives `xiy`
/// (where the name, the rest and the index hold no `%`, and `x` does not
/// end in `[`).
pub proof fn lemma_expand_plain(x: Seq<char>, y: Seq<char>, i: Seq<char>)
    requires
        !x.contains('%'),
        !y.contains('%'),
        !i.contains('%'),
        x.len() == 0 || x.last() != '[',
    ensures
        expand_name(x + "%s"@ + y, i) == x + i + y,
{
    reveal_strlit("[%s]");
    reveal_strlit("%s");
    let b = "[%s]"@;
    let p = "%s"@;
    let t = p + y;
    let s = x + t;
    assert(x + p + y =~= s);
    assert forall|k: int| 0 <= k < s.len() && k + b.len() <= s.len() + Seq::<char>::empty().len() implies !((s
        + Seq::<char>::empty()).skip(k).take(b.len() as int) =~= b) by {
        let u = s + Seq::<char>::empty();
        assert(u =~= s);
        if u.skip(k).take(b.len() as int) =~= b {
            let w = u.skip(k).take(b.len() as int);
            assert(w[0] == b[0] && w[1] == b[1]);
            assert(w[0] == s[k] && w[1] == s[k + 1]);
            assert(s[k] == '[' && s[k + 1] == '%');
            if k + 1 < x.len() {
                assert(x[k + 1] == '%');
            } else if k + 1 == x.len() {
                assert(x[k] == '[');
                assert(x.last() == x[k]);
            } else if k + 1 == x.len() + 1 {
                assert(s[k] == t[0]);
            } else {
                assert(s[k + 1] == y[k + 1 - x.len() - 2]);
            }
        }
    }
    lemma_replace_skip(s, Seq::<char>::empty(), b, i);
    assert(s + Seq::<char>::empty() =~= s);
    assert forall|k: int| 0 <= k < x.len() && k + p.len() <= x.len() + t.len() implies !((x + t).skip(k).take(
        p.len() as int,
    ) =~= p) by {
        if (x + t).skip(k).take(p.len() as int) =~= p {
            let w = (x + t).skip(k).take(p.len() as int);
            assert(w[0] == p[0]);
            assert(w[0] == (x + t)[k]);
            assert(x[k] == '%');
        }
    }
    lemma_replace_skip(x, t, p, i);
    lemma_replace_at(y, p, i);
    lemma_replace_absent(y, p, i, '%');
    assert(x + (i + y) =~= x + i + y);
}

} // verus!
