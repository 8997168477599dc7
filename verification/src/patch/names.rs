//! Matching names against the patterns of a patch file, and the positions
//! of the enumeration token in a pattern.
use vstd::prelude::*;

use crate::text::{
    chars_of, check_split, concat, drop_bytes, split_chars, split_spec, splits_at, strings_view, take_bytes, utf8,
};
use vstd::string::StringSliceAdditionalSpecFns;

verus! {

/// What building a `globset::GlobSet` of the one glob `pattern` and
/// testing `name` against it answers: `None` when `pattern` is no valid
/// glob or its matcher cannot be built, else whether `name` matches it.
pub uninterp spec fn glob_set_match(pattern: Seq<char>, name: Seq<char>) -> Option<bool>;

/// The longest glob, in bytes, that is handed to globset: its literal
/// matchers number their states with 31 bits, and longer globs are refused
/// as invalid.
pub const GLOB_MAX_BYTES: usize = 0x4000_0000;

/// What testing `name` against the glob `pattern` answers: `None` when the
/// glob is longer than [`GLOB_MAX_BYTES`] or globset refuses it (see
/// [`glob_set_match`]), else whether `name` matches it.
pub open spec fn glob_match(pattern: Seq<char>, name: Seq<char>) -> Option<bool> {
    if utf8(pattern).len() <= GLOB_MAX_BYTES {
        glob_set_match(pattern, name)
    } else {
        None
    }
}

/// Parses the glob `pattern` with `globset::Glob::new`, builds a
/// `globset::GlobSet` of it with `GlobSetBuilder::add` and `build` (which
/// answer an error, rather than panicking, where the matcher would be too
/// large), and tests `name` with `GlobSet::is_match`. The contract only
/// names the outcome: the glob language of globset is not restated here.
/// A glob of more than [`GLOB_MAX_BYTES`] bytes is not handed over, since
/// building its literal matcher can panic.
#[verifier::external_body]
fn glob_is_match(pattern: &str, name: &str) -> (r: Option<bool>)
    requires
        utf8(pattern@).len() <= GLOB_MAX_BYTES,
    ensures
        r == glob_set_match(pattern@, name@),
{
    let glob = match globset::Glob::new(pattern) {
        Ok(g) => g,
        Err(_) => return None,
    };
    let mut builder = globset::GlobSetBuilder::new();
    builder.add(glob);
    match builder.build() {
        Ok(set) => Some(set.is_match(name)),
        Err(_) => None,
    }
}

/// Tests `name` against the glob `pattern` (see [`glob_match`]).
fn glob_test(pattern: &str, name: &str) -> (r: Option<bool>)
    ensures
        r == glob_match(pattern@, name@),
{
    let n = pattern.as_bytes().len();
    if n > GLOB_MAX_BYTES {
        return None;
    }
    glob_is_match(pattern, name)
}

/// What testing `name` against the patterns `parts` in turn answers: the
/// first pattern that matches gives `true`; an invalid pattern met before
/// one that matches gives `None`; no match gives `false`.
pub open spec fn match_parts(name: Seq<char>, parts: Seq<Seq<char>>) -> Option<bool>
    decreases parts.len(),
{
    if parts.len() == 0 {
        Some(false)
    } else {
        match glob_match(parts[0], name) {
            None => None,
            Some(true) => Some(true),
            Some(false) => match_parts(name, parts.skip(1)),
        }
    }
}

/// Whether `name` matches the specification `spec`: a specification that
/// starts with `_` matches nothing; otherwise it is a `,`-separated list of
/// globs, and `name` matches when one of them matches it. `None` when an
/// invalid glob is met before one that matches.
pub open spec fn matchname_spec(name: Seq<char>, spec: Seq<char>) -> Option<bool> {
    if spec.len() > 0 && spec[0] == '_' {
        Some(false)
    } else {
        match_parts(name, split_spec(spec, ','))
    }
}

/// The position of the first of `parts` that matches `name`, every one
/// before it being a valid glob that does not.
pub open spec fn first_match(name: Seq<char>, parts: Seq<Seq<char>>, i: int) -> bool {
    &&& 0 <= i < parts.len()
    &&& glob_match(parts[i], name) == Some(true)
    &&& forall|j: int| 0 <= j < i ==> glob_match(parts[j], name) == Some(false)
}

/// The outcome of testing the patterns from position `i` on.
proof fn lemma_match_parts_step(name: Seq<char>, parts: Seq<Seq<char>>, i: int)
    requires
        0 <= i < parts.len(),
    ensures
        match_parts(name, parts.skip(i)) == match glob_match(parts[i], name) {
            None => None,
            Some(true) => Some(true),
            Some(false) => match_parts(name, parts.skip(i + 1)),
        },
{
    assert(parts.skip(i).skip(1) =~= parts.skip(i + 1));
    assert(parts.skip(i)[0] == parts[i]);
}

/// Tests `name` against the patterns `parts` in turn (see [`match_parts`]);
/// the position of the first that matches comes with `Some(true)`.
fn test_parts(name: &str, parts: &Vec<String>) -> (r: (Option<bool>, usize))
    ensures
        r.0 == match_parts(name@, strings_view(parts@)),
        r.0 == Some(true) ==> first_match(name@, strings_view(parts@), r.1 as int),
{
    let ghost ps = strings_view(parts@);
    let mut i: usize = 0;
    assert(ps.skip(0) =~= ps);
    while i < parts.len()
        invariant
            ps == strings_view(parts@),
            i <= parts@.len(),
            match_parts(name@, ps) == match_parts(name@, ps.skip(i as int)),
            forall|j: int| 0 <= j < i ==> glob_match(ps[j], name@) == Some(false),
        decreases parts@.len() - i,
    {
        proof {
            lemma_match_parts_step(name@, ps, i as int);
        }
        assert(ps[i as int] == parts@[i as int]@);
        match glob_test(parts[i].as_str(), name) {
            None => return (None, i),
            Some(true) => return (Some(true), i),
            Some(false) => {},
        }
        i += 1;
    }
    assert(ps.skip(i as int) =~= Seq::<Seq<char>>::empty());
    (Some(false), i)
}

/// Check if name matches against a specification (see [`matchname_spec`]).
/// The specification must not hold an invalid glob before one that matches.
pub fn matchname(name: &str, spec: &str) -> (r: bool)
    requires
        matchname_spec(name@, spec@) is Some,
    ensures
        r == matchname_spec(name@, spec@)->0,
{
    match try_parts(name, spec) {
        Some(b) => b,
        None => false,
    }
}

/// Whether `name` matches `spec`, or `None` where [`matchname`] would fail
/// on an invalid glob.
fn try_parts(name: &str, spec: &str) -> (r: Option<bool>)
    ensures
        r == matchname_spec(name@, spec@),
{
    let chars = chars_of(spec);
    if chars.len() > 0 && chars[0] == '_' {
        return Some(false);
    }
    let parts = split_chars(chars.as_slice(), ',');
    test_parts(name, &parts).0
}

/// Whether `name` matches `spec` (see [`matchname_spec`]), or `None` when
/// `spec` holds an invalid glob before one that matches.
pub fn checked_matchname(name: &str, spec: &str) -> (r: Option<bool>)
    ensures
        r == matchname_spec(name@, spec@),
{
    match try_parts(name, spec) {
        Some(_) => Some(matchname(name, spec)),
        None => None,
    }
}

/// If a name matches a specification, return the first sub-specification that it matches
pub fn matchsubspec(name: &str, spec: &str) -> (r: Option<String>)
    requires
        matchname_spec(name@, spec@) is Some,
    ensures
        match r {
            Some(s) => matchname_spec(name@, spec@) == Some(true) && exists|i: int|
                first_match(name@, split_spec(spec@, ','), i) && s@ == split_spec(spec@, ',')[i],
            None => matchname_spec(name@, spec@) == Some(false),
        },
{
    if !matchname(name, spec) {
        return None;
    }
    let chars = chars_of(spec);
    let parts = split_chars(chars.as_slice(), ',');
    let (found, i) = test_parts(name, &parts);
    match found {
        Some(true) => {
            assert(strings_view(parts@)[i as int] == parts@[i as int]@);
            Some(parts[i].clone())
        },
        _ => None,
    }
}

// ---------------------------------------------------------------------------
// Enumeration tokens
// ---------------------------------------------------------------------------

/// The position of the first byte `c` of `b`.
pub open spec fn first_byte(b: Seq<u8>, c: u8) -> Option<int> {
    if exists|i: int| 0 <= i < b.len() && b[i] == c {
        Some(choose|i: int| 0 <= i < b.len() && b[i] == c && forall|j: int| 0 <= j < i ==> b[j] != c)
    } else {
        None
    }
}

/// The byte `k` places before the end of `b`.
pub open spec fn from_end(b: Seq<u8>, k: int) -> u8 {
    b[b.len() - 1 - k]
}

/// How far from the end the last byte `c` of `b` stands.
pub open spec fn last_byte_from_end(b: Seq<u8>, c: u8) -> Option<int> {
    if exists|i: int| 0 <= i < b.len() && b[i] == c {
        Some(
            choose|k: int|
                0 <= k < b.len() && from_end(b, k) == c && forall|j: int|
                    0 <= j < k ==> #[trigger] from_end(b, j) != c,
        )
    } else {
        None
    }
}

/// The first of two options that is set.
pub open spec fn either(a: Option<int>, b: Option<int>) -> Option<int> {
    if a is Some {
        a
    } else {
        b
    }
}

/// The left index of the enumeration token of a pattern: its first `*`, else
/// its first `?`, else its first `[`.
pub open spec fn left_token(b: Seq<u8>) -> Option<int> {
    either(first_byte(b, 42), either(first_byte(b, 63), first_byte(b, 91)))
}

/// The right index of the enumeration token, counted from the end: its last
/// `*`, else its last `?`, else its last `]`.
pub open spec fn right_token(b: Seq<u8>) -> Option<int> {
    either(last_byte_from_end(b, 42), either(last_byte_from_end(b, 63), last_byte_from_end(b, 93)))
}

/// The position of the first byte `c` of `b`, if any.
fn find_byte(b: &[u8], c: u8) -> (r: Option<usize>)
    ensures
        match r {
            Some(i) => first_byte(b@, c) == Some(i as int) && i < b@.len(),
            None => first_byte(b@, c) is None,
        },
{
    let mut i: usize = 0;
    while i < b.len()
        invariant
            i <= b@.len(),
            forall|j: int| 0 <= j < i ==> b@[j] != c,
        decreases b@.len() - i,
    {
        if b[i] == c {
            proof {
                let k = choose|k: int| 0 <= k < b@.len() && b@[k] == c && forall|j: int| 0 <= j < k ==> b@[j] != c;
                assert(k == i) by {
                    if k < i {
                        assert(b@[k] != c);
                    } else if k > i {
                        assert(b@[i as int] != c);
                    }
                }
            }
            return Some(i);
        }
        i += 1;
    }
    None
}

/// How far from the end the last byte `c` of `b` stands, if any.
fn rfind_byte(b: &[u8], c: u8) -> (r: Option<usize>)
    ensures
        match r {
            Some(k) => last_byte_from_end(b@, c) == Some(k as int) && k < b@.len(),
            None => last_byte_from_end(b@, c) is None,
        },
{
    let n = b.len();
    let mut k: usize = 0;
    while k < n
        invariant
            n == b@.len(),
            k <= n,
            forall|j: int| 0 <= j < k ==> #[trigger] from_end(b@, j) != c,
        decreases n - k,
    {
        if b[n - 1 - k] == c {
            proof {
                assert(from_end(b@, k as int) == c);
                let m = choose|m: int|
                    0 <= m < b@.len() && from_end(b@, m) == c && forall|j: int|
                        0 <= j < m ==> #[trigger] from_end(b@, j) != c;
                assert(m == k) by {
                    if m < k {
                        assert(from_end(b@, m) != c);
                    } else if m > k {
                        assert(from_end(b@, k as int) != c);
                    }
                }
            }
            return Some(k);
        }
        k += 1;
    }
    proof {
        assert forall|i: int| 0 <= i < b@.len() implies b@[i] != c by {
            assert(from_end(b@, n - 1 - i) != c);
        }
    }
    None
}

/// Find left and right indices of enumeration token in specification string
pub fn spec_ind(spec: &str) -> (r: (usize, usize))
    requires
        left_token(spec.spec_bytes()) is Some,
        right_token(spec.spec_bytes()) is Some,
    ensures
        r.0 == left_token(spec.spec_bytes())->0,
        r.1 == right_token(spec.spec_bytes())->0,
{
    let b = spec.as_bytes();
    let li = match find_byte(b, 42) {
        Some(i) => i,
        None => match find_byte(b, 63) {
            Some(i) => i,
            None => match find_byte(b, 91) {
                Some(i) => i,
                None => 0,
            },
        },
    };
    let ri = match rfind_byte(b, 42) {
        Some(i) => i,
        None => match rfind_byte(b, 63) {
            Some(i) => i,
            None => match rfind_byte(b, 93) {
                Some(i) => i,
                None => 0,
            },
        },
    };
    (li, ri)
}

/// The left and right indices of the enumeration token of `spec`, where it
/// has both.
pub fn spec_tokens(spec: &str) -> (r: Option<(usize, usize)>)
    ensures
        r is Some <==> left_token(spec.spec_bytes()) is Some && right_token(spec.spec_bytes()) is Some,
        r matches Some(p) ==> p.0 == left_token(spec.spec_bytes())->0 && p.1 == right_token(spec.spec_bytes())->0
            && p.0 < spec.spec_bytes().len() && p.1 < spec.spec_bytes().len(),
{
    let b = spec.as_bytes();
    let l = match find_byte(b, 42) {
        Some(i) => Some(i),
        None => match find_byte(b, 63) {
            Some(i) => Some(i),
            None => find_byte(b, 91),
        },
    };
    let r = match rfind_byte(b, 42) {
        Some(i) => Some(i),
        None => match rfind_byte(b, 63) {
            Some(i) => Some(i),
            None => rfind_byte(b, 93),
        },
    };
    match (l, r) {
        (Some(li), Some(ri)) => Some((li, ri)),
        _ => None,
    }
}

// ---------------------------------------------------------------------------
// Offsets of arrays
// ---------------------------------------------------------------------------

/// The difference between the offset at `i + 1` and the one at `i`.
pub open spec fn gap(o: Seq<u32>, i: int) -> int {
    o[i + 1] - o[i]
}

/// Each offset is `step` after the one before.
pub open spec fn evenly_spaced(o: Seq<u32>, step: u32) -> bool {
    forall|i: int| 0 <= i < o.len() - 1 ==> #[trigger] gap(o, i) == step
}

/// Walking the offsets, no difference is taken of an offset smaller than the
/// one before while all the differences before it are `step`.
pub open spec fn offsets_ordered_while_even(o: Seq<u32>, step: u32) -> bool {
    forall|i: int|
        0 <= i < o.len() - 1 ==> (forall|j: int| 0 <= j < i ==> #[trigger] gap(o, j) == step) ==> #[trigger] o[i]
            <= o[i + 1]
}

/// Whether the offsets are evenly spaced by `dim_increment`.
pub fn check_offsets(offsets: &[u32], dim_increment: u32) -> (r: bool)
    requires
        offsets_ordered_while_even(offsets@, dim_increment),
    ensures
        r == evenly_spaced(offsets@, dim_increment),
{
    let n = offsets.len();
    if n < 2 {
        return true;
    }
    let mut i: usize = 0;
    while i + 1 < n
        invariant
            n == offsets@.len(),
            n >= 2,
            i + 1 <= n,
            offsets_ordered_while_even(offsets@, dim_increment),
            forall|j: int| 0 <= j < i ==> #[trigger] gap(offsets@, j) == dim_increment,
        decreases n - i,
    {
        assert(offsets@[i as int] <= offsets@[i + 1]);
        if offsets[i + 1] - offsets[i] != dim_increment {
            assert(gap(offsets@, i as int) != dim_increment);
            return false;
        }
        assert(gap(offsets@, i as int) == dim_increment);
        i += 1;
    }
    true
}

} // verus!

verus! {

// ---------------------------------------------------------------------------
// Stripping a prefix or a suffix from names
// ---------------------------------------------------------------------------

/// The glob that matches the names that start with `substr`.
pub open spec fn start_glob(substr: Seq<char>) -> Seq<char> {
    substr + seq!['*']
}

/// The glob that matches the names that end with `substr`.
pub open spec fn end_glob(substr: Seq<char>) -> Seq<char> {
    seq!['*'] + substr
}

/// Where stripping `substr` from the start of `name` fails: the glob
/// `substr*` is invalid, or it matches and the name cannot lose as many
/// leading bytes as `substr` has.
pub open spec fn strip_start_fails(name: Seq<char>, substr: Seq<char>) -> bool {
    match glob_match(start_glob(substr), name) {
        None => true,
        Some(m) => m && !splits_at(name, utf8(substr).len() as int),
    }
}

/// `new` is `name` stripped at its start: where the glob `substr*` matches
/// it, the name without as many leading bytes as `substr` has; else the name.
pub open spec fn start_stripped(name: Seq<char>, substr: Seq<char>, new: Seq<char>) -> bool {
    if glob_match(start_glob(substr), name) == Some(true) {
        utf8(new) == utf8(name).skip(utf8(substr).len() as int)
    } else {
        new == name
    }
}

/// Where stripping `substr` from the end of `name` fails: the glob
/// `*substr` is invalid, or it matches and the name cannot lose as many
/// trailing bytes as `substr` has.
pub open spec fn strip_end_fails(name: Seq<char>, substr: Seq<char>) -> bool {
    match glob_match(end_glob(substr), name) {
        None => true,
        Some(m) => m && !(utf8(substr).len() <= utf8(name).len() && splits_at(
            name,
            utf8(name).len() - utf8(substr).len(),
        )),
    }
}

/// `new` is `name` stripped at its end: where the glob `*substr` matches it,
/// the name without as many trailing bytes as `substr` has; else the name.
pub open spec fn end_stripped(name: Seq<char>, substr: Seq<char>, new: Seq<char>) -> bool {
    if glob_match(end_glob(substr), name) == Some(true) {
        utf8(new) == utf8(name).take(utf8(name).len() - utf8(substr).len())
    } else {
        new == name
    }
}

/// Strips `substr` from the start of `name` where the glob `substr*`
/// matches it: `Some(None)` when it does not match, `Some(Some(n))` with
/// the stripped name, `None` where stripping fails.
pub fn strip_name_start(name: &str, substr: &str) -> (r: Option<Option<String>>)
    ensures
        r is None <==> strip_start_fails(name@, substr@),
        r matches Some(o) ==> match o {
            Some(n) => glob_match(start_glob(substr@), name@) == Some(true) && start_stripped(name@, substr@, n@),
            None => glob_match(start_glob(substr@), name@) == Some(false),
        },
{
    let pattern = concat(substr, "*");
    proof {
        reveal_strlit("*");
        assert(pattern@ == start_glob(substr@));
    }
    match glob_test(pattern.as_str(), name) {
        None => None,
        Some(false) => Some(None),
        Some(true) => {
            let len = substr.as_bytes().len();
            if check_split(name, len) {
                Some(Some(drop_bytes(name, len)))
            } else {
                None
            }
        },
    }
}

/// Strips `substr` from the end of `name` where the glob `*substr` matches
/// it: `Some(None)` when it does not match, `Some(Some(n))` with the
/// stripped name, `None` where stripping fails.
pub fn strip_name_end(name: &str, substr: &str) -> (r: Option<Option<String>>)
    ensures
        r is None <==> strip_end_fails(name@, substr@),
        r matches Some(o) ==> match o {
            Some(n) => glob_match(end_glob(substr@), name@) == Some(true) && end_stripped(name@, substr@, n@),
            None => glob_match(end_glob(substr@), name@) == Some(false),
        },
{
    let pattern = concat("*", substr);
    proof {
        reveal_strlit("*");
        assert(pattern@ == end_glob(substr@));
    }
    match glob_test(pattern.as_str(), name) {
        None => None,
        Some(false) => Some(None),
        Some(true) => {
            let len = substr.as_bytes().len();
            let nlen = name.as_bytes().len();
            if len <= nlen && check_split(name, nlen - len) {
                Some(Some(take_bytes(name, nlen - len)))
            } else {
                None
            }
        },
    }
}

} // verus!
