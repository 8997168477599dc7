//! Character-level helpers used by the name checks, the index parsers and the
//! name expansion of arrays.
use vstd::prelude::*;

verus! {

/// Appends one character to a string (`String::push`).
#[verifier::external_body]
pub(crate) fn push_char(s: &mut String, c: char)
    ensures
        final(s)@ == old(s)@.push(c),
{
    s.push(c);
}

/// Whether two string slices hold the same characters.
pub fn str_eq(a: &str, b: &str) -> (r: bool)
    ensures
        r == (a@ == b@),
{
    let n = a.unicode_len();
    let m = b.unicode_len();
    if n != m {
        return false;
    }
    let mut i: usize = 0;
    while i < n
        invariant
            n == a@.len(),
            m == b@.len(),
            n == m,
            i <= n,
            forall|j: int| 0 <= j < i ==> a@[j] == b@[j],
        decreases n - i,
    {
        if a.get_char(i) != b.get_char(i) {
            return false;
        }
        i += 1;
    }
    assert(a@ =~= b@);
    true
}

/// The characters of a string slice.
pub fn chars_of(s: &str) -> (r: Vec<char>)
    ensures
        r@ == s@,
{
    let n = s.unicode_len();
    let mut v: Vec<char> = Vec::new();
    let mut i: usize = 0;
    while i < n
        invariant
            n == s@.len(),
            i <= n,
            v@ == s@.subrange(0, i as int),
        decreases n - i,
    {
        v.push(s.get_char(i));
        i += 1;
        assert(v@ =~= s@.subrange(0, i as int));
    }
    assert(s@.subrange(0, n as int) =~= s@);
    v
}

/// A string made of the characters of `v`.
pub fn string_from_chars(v: &[char]) -> (r: String)
    ensures
        r@ == v@,
{
    let mut s = String::new();
    let mut i: usize = 0;
    while i < v.len()
        invariant
            i <= v@.len(),
            s@ == v@.subrange(0, i as int),
        decreases v@.len() - i,
    {
        push_char(&mut s, v[i]);
        i += 1;
        assert(s@ =~= v@.subrange(0, i as int));
    }
    assert(v@.subrange(0, v@.len() as int) =~= v@);
    s
}

/// `a` followed by `b`.
pub fn concat(a: &str, b: &str) -> (r: String)
    ensures
        r@ == a@ + b@,
{
    let mut v = chars_of(a);
    let w = chars_of(b);
    let mut i: usize = 0;
    let ghost v0 = v@;
    while i < w.len()
        invariant
            i <= w@.len(),
            v@ =~= v0 + w@.take(i as int),
        decreases w@.len() - i,
    {
        v.push(w[i]);
        i += 1;
    }
    assert(w@.take(w@.len() as int) =~= w@);
    string_from_chars(v.as_slice())
}

/// A copy of a string slice as an owned string.
pub fn owned(s: &str) -> (r: String)
    ensures
        r@ == s@,
{
    s.to_owned()
}

/// The UTF-8 encoding of a text.
pub open spec fn utf8(s: Seq<char>) -> Seq<u8> {
    vstd::utf8::encode_utf8(s)
}

/// Whether `n` bytes into the encoding of `s` a character starts (or the
/// text ends).
pub open spec fn splits_at(s: Seq<char>, n: int) -> bool {
    vstd::utf8::is_char_boundary(utf8(s), n)
}

/// The encoding of two texts one after the other is the one encoding after
/// the other.
pub proof fn lemma_utf8_concat(a: Seq<char>, b: Seq<char>)
    ensures
        utf8(a + b) == utf8(a) + utf8(b),
    decreases a.len(),
{
    if a.len() > 0 {
        lemma_utf8_concat(a.drop_first(), b);
        assert((a + b).drop_first() =~= a.drop_first() + b);
        assert((a + b)[0] == a[0]);
    } else {
        assert(a + b =~= b);
    }
}

/// The text after the first `n` bytes of `s`.
pub fn drop_bytes(s: &str, n: usize) -> (r: String)
    requires
        splits_at(s@, n as int),
    ensures
        utf8(r@) == utf8(s@).skip(n as int),
{
    let (_, rest) = s.split_at(n);
    rest.to_owned()
}

/// The first `n` bytes of `s`, as a text.
pub fn take_bytes(s: &str, n: usize) -> (r: String)
    requires
        splits_at(s@, n as int),
    ensures
        utf8(r@) == utf8(s@).take(n as int),
{
    let (front, _) = s.split_at(n);
    front.to_owned()
}

/// Whether `n` bytes into `s` a character starts (`str::is_char_boundary`
/// within the text).
pub fn check_split(s: &str, n: usize) -> (r: bool)
    ensures
        r == splits_at(s@, n as int),
{
    s.is_char_boundary(n)
}

/// `n` is how many leading bytes `a` and `b` have in common.
pub open spec fn is_common_len(a: Seq<u8>, b: Seq<u8>, n: int) -> bool {
    &&& 0 <= n <= a.len()
    &&& n <= b.len()
    &&& forall|j: int| 0 <= j < n ==> a[j] == b[j]
    &&& (n == a.len() || n == b.len() || a[n] != b[n])
}

/// How many leading bytes `a` and `b` have in common.
pub open spec fn common_len(a: Seq<u8>, b: Seq<u8>) -> int {
    choose|n: int| is_common_len(a, b, n)
}

proof fn lemma_common_len(a: Seq<u8>, b: Seq<u8>, n: int)
    requires
        is_common_len(a, b, n),
    ensures
        common_len(a, b) == n,
{
    let c = common_len(a, b);
    assert(is_common_len(a, b, c));
    if c < n {
        assert(a[c] == b[c]);
    }
    if n < c {
        assert(a[n] == b[n]);
    }
}

/// The length in bytes of the longest prefix that the first `k` texts of
/// `s` share: that of the first text, cut down by each of the others.
pub open spec fn lcp_upto(s: Seq<Seq<char>>, k: int) -> int
    decreases k,
{
    if k <= 1 {
        utf8(s[0]).len() as int
    } else {
        let m = lcp_upto(s, k - 1);
        let c = common_len(utf8(s[k - 1]), utf8(s[0]));
        if c < m {
            c
        } else {
            m
        }
    }
}

/// How many leading bytes `a` and `b` have in common.
fn common_prefix_len(a: &[u8], b: &[u8]) -> (r: usize)
    ensures
        r == common_len(a@, b@),
{
    let mut n: usize = 0;
    while n < a.len() && n < b.len() && a[n] == b[n]
        invariant
            n <= a@.len(),
            n <= b@.len(),
            forall|j: int| 0 <= j < n ==> a@[j] == b@[j],
        decreases a@.len() - n,
    {
        n += 1;
    }
    proof {
        lemma_common_len(a@, b@, n as int);
    }
    n
}

/// The longest common prefix of `names`, in bytes, as a text: `Some` of
/// the empty text for no names; `None` where that prefix of the first name
/// ends inside a character.
pub fn longest_common_prefix(names: &Vec<String>) -> (r: Option<String>)
    ensures
        names@.len() == 0 ==> (r matches Some(t) && t@.len() == 0),
        names@.len() > 0 ==> {
            let s = strings_view(names@);
            &&& r is Some <==> splits_at(s[0], lcp_upto(s, s.len() as int))
            &&& r matches Some(t) ==> utf8(t@) == utf8(s[0]).take(lcp_upto(s, s.len() as int))
        },
{
    if names.len() == 0 {
        return Some(String::new());
    }
    let ghost s = strings_view(names@);
    let first = names[0].as_str();
    let b0 = first.as_bytes();
    let mut len: usize = b0.len();
    let mut i: usize = 1;
    assert(s[0] == names@[0]@);
    while i < names.len()
        invariant
            1 <= i <= names@.len(),
            s == strings_view(names@),
            first@ == s[0],
            b0@ == utf8(s[0]),
            len == lcp_upto(s, i as int),
        decreases names@.len() - i,
    {
        assert(s[i as int] == names@[i as int]@);
        let c = common_prefix_len(names[i].as_str().as_bytes(), b0);
        if c < len {
            len = c;
        }
        i += 1;
    }
    if check_split(first, len) {
        Some(take_bytes(first, len))
    } else {
        None
    }
}

// ---------------------------------------------------------------------------
// Decimal numbers
// ---------------------------------------------------------------------------

/// The decimal digit character for `d < 10`.
pub open spec fn digit_char(d: nat) -> char {
    ((d + 48) as u32) as char
}

/// Whether `c` is one of `0`..`9`.
pub open spec fn is_digit(c: char) -> bool {
    '0' <= c && c <= '9'
}

/// The value of the decimal digit `c`.
pub open spec fn digit_value(c: char) -> nat {
    ((c as u32) - 48) as nat
}

/// The shortest decimal representation of `n` (no sign, no leading zero).
pub open spec fn decimal(n: nat) -> Seq<char>
    decreases n,
{
    if n < 10 {
        seq![digit_char(n)]
    } else {
        decimal(n / 10).push(digit_char(n % 10))
    }
}

/// The value of a sequence of decimal digits.
pub open spec fn digits_value(s: Seq<char>) -> nat
    decreases s.len(),
{
    if s.len() == 0 {
        0
    } else {
        digits_value(s.drop_last()) * 10 + digit_value(s.last())
    }
}

/// Whether every character of `s` is a decimal digit.
pub open spec fn all_digits(s: Seq<char>) -> bool {
    forall|i: int| 0 <= i < s.len() ==> is_digit(#[trigger] s[i])
}

/// `str::parse::<u32>`: an optional `+`, then at least one decimal digit,
/// with a value that fits in 32 bits.
pub open spec fn parse_u32_spec(s: Seq<char>) -> Option<u32> {
    let d = if s.len() > 0 && s[0] == '+' { s.skip(1) } else { s };
    if d.len() > 0 && all_digits(d) && digits_value(d) <= u32::MAX {
        Some(digits_value(d) as u32)
    } else {
        None
    }
}

proof fn lemma_digits_value_push(s: Seq<char>, c: char)
    ensures
        digits_value(s.push(c)) == digits_value(s) * 10 + digit_value(c),
{
    assert(s.push(c).drop_last() =~= s);
}

/// The value of a digit sequence only grows when digits are appended.
proof fn lemma_digits_value_monotone(s: Seq<char>, i: int)
    requires
        0 <= i <= s.len(),
    ensures
        digits_value(s.take(i)) <= digits_value(s),
    decreases s.len() - i,
{
    if i < s.len() {
        lemma_digits_value_monotone(s, i + 1);
        assert(s.take(i + 1).drop_last() =~= s.take(i));
    } else {
        assert(s.take(i) =~= s);
    }
}

/// The character of the decimal digit `d`.
pub fn digit_to_char(d: u32) -> (c: char)
    requires
        d < 10,
    ensures
        c == digit_char(d as nat),
        is_digit(c),
        digit_value(c) == d,
{
    let b: u8 = (48 + d) as u8;
    b as char
}

/// `u32::to_string`.
pub fn u32_to_string(n: u32) -> (r: String)
    ensures
        r@ == decimal(n as nat),
    decreases n,
{
    if n < 10 {
        let mut s = String::new();
        push_char(&mut s, digit_to_char(n));
        assert(s@ =~= decimal(n as nat));
        s
    } else {
        let mut s = u32_to_string(n / 10);
        push_char(&mut s, digit_to_char(n % 10));
        s
    }
}

/// The decimal representation of `n`.
pub fn usize_to_string(n: usize) -> (r: String)
    ensures
        r@ == decimal(n as nat),
    decreases n,
{
    if n < 10 {
        let mut s = String::new();
        push_char(&mut s, digit_to_char(n as u32));
        assert(s@ =~= decimal(n as nat));
        s
    } else {
        let mut s = usize_to_string(n / 10);
        push_char(&mut s, digit_to_char((n % 10) as u32));
        s
    }
}

/// `str::parse::<u32>` on a character sequence.
pub fn parse_u32(s: &[char]) -> (r: Option<u32>)
    ensures
        r == parse_u32_spec(s@),
{
    let start: usize = if s.len() > 0 && s[0] == '+' { 1 } else { 0 };
    let ghost d = if s@.len() > 0 && s@[0] == '+' { s@.skip(1) } else { s@ };
    assert(d =~= s@.skip(start as int));
    if start >= s.len() {
        return None;
    }
    let mut i: usize = start;
    while i < s.len()
        invariant
            start <= i <= s@.len(),
            d =~= s@.skip(start as int),
            d == (if s@.len() > 0 && s@[0] == '+' { s@.skip(1) } else { s@ }),
            forall|j: int| start <= j < i ==> is_digit(#[trigger] s@[j]),
        decreases s@.len() - i,
    {
        if !(s[i] >= '0' && s[i] <= '9') {
            assert(!is_digit(d[i - start]));
            assert(!all_digits(d));
            return None;
        }
        i += 1;
    }
    assert(all_digits(d));
    let mut acc: u64 = 0;
    let mut i: usize = start;
    while i < s.len()
        invariant
            start <= i <= s@.len(),
            d =~= s@.skip(start as int),
            d == (if s@.len() > 0 && s@[0] == '+' { s@.skip(1) } else { s@ }),
            all_digits(d),
            acc as nat == digits_value(d.take(i - start)),
            acc <= u32::MAX,
        decreases s@.len() - i,
    {
        let c = s[i];
        assert(c == d[i - start]);
        assert(is_digit(c));
        let dv: u64 = (c as u32 - 48) as u64;
        assert(d.take(i + 1 - start) =~= d.take(i - start).push(c));
        proof {
            lemma_digits_value_push(d.take(i - start), c);
        }
        acc = acc * 10 + dv;
        i += 1;
        assert(acc as nat == digits_value(d.take(i - start)));
        if acc > 0xffff_ffff {
            proof {
                lemma_digits_value_monotone(d, i - start);
            }
            assert(digits_value(d) > u32::MAX);
            return None;
        }
    }
    assert(d.take(i - start) =~= d);
    Some(acc as u32)
}


// ---------------------------------------------------------------------------
// Splitting and replacing
// ---------------------------------------------------------------------------

/// `str::split` on a single character: `n` separators give `n + 1` pieces.
pub open spec fn split_spec(s: Seq<char>, sep: char) -> Seq<Seq<char>>
    decreases s.len(),
{
    if s.len() == 0 {
        seq![Seq::<char>::empty()]
    } else {
        let prev = split_spec(s.drop_last(), sep);
        if s.last() == sep {
            prev.push(Seq::<char>::empty())
        } else {
            prev.update(prev.len() - 1, prev.last().push(s.last()))
        }
    }
}

/// The character views of a sequence of strings.
pub open spec fn strings_view(v: Seq<String>) -> Seq<Seq<char>> {
    Seq::new(v.len(), |i: int| v[i]@)
}

/// A split always has at least one piece.
pub proof fn lemma_split_nonempty(s: Seq<char>, sep: char)
    ensures
        split_spec(s, sep).len() >= 1,
    decreases s.len(),
{
    if s.len() > 0 {
        lemma_split_nonempty(s.drop_last(), sep);
    }
}

/// Splits `s` at every occurrence of `sep`.
pub fn split_chars(s: &[char], sep: char) -> (r: Vec<String>)
    ensures
        strings_view(r@) =~= split_spec(s@, sep),
{
    let mut done: Vec<String> = Vec::new();
    let mut cur: Vec<char> = Vec::new();
    let mut i: usize = 0;
    assert(s@.take(0) =~= Seq::<char>::empty());
    while i < s.len()
        invariant
            i <= s@.len(),
            strings_view(done@).push(cur@) =~= split_spec(s@.take(i as int), sep),
        decreases s@.len() - i,
    {
        let c = s[i];
        let ghost prev = split_spec(s@.take(i as int), sep);
        proof {
            lemma_split_nonempty(s@.take(i as int), sep);
        }
        assert(s@.take(i + 1).drop_last() =~= s@.take(i as int));
        assert(s@.take(i + 1).last() == c);
        if c == sep {
            let piece = string_from_chars(cur.as_slice());
            done.push(piece);
            cur = Vec::new();
            assert(strings_view(done@) =~= prev);
        } else {
            cur.push(c);
            assert(strings_view(done@) =~= prev.drop_last());
        }
        i += 1;
    }
    let piece = string_from_chars(cur.as_slice());
    done.push(piece);
    assert(s@.take(s@.len() as int) =~= s@);
    done
}

/// `str::replace` with a non-empty pattern: every non-overlapping
/// occurrence of `pat`, taken from the left, becomes `rep`.
pub open spec fn replace_spec(s: Seq<char>, pat: Seq<char>, rep: Seq<char>) -> Seq<char>
    decreases s.len(),
{
    if pat.len() == 0 || s.len() < pat.len() {
        s
    } else if s.take(pat.len() as int) =~= pat {
        rep + replace_spec(s.skip(pat.len() as int), pat, rep)
    } else {
        seq![s[0]] + replace_spec(s.skip(1), pat, rep)
    }
}

/// Whether `pat` occurs in `s` at position `i`.
fn matches_at(s: &[char], i: usize, pat: &[char]) -> (r: bool)
    requires
        i <= s@.len(),
    ensures
        r == (i + pat@.len() <= s@.len() && s@.skip(i as int).take(pat@.len() as int) =~= pat@),
{
    if pat.len() > s.len() - i {
        return false;
    }
    let mut k: usize = 0;
    let n = s.len();
    while k < pat.len()
        invariant
            n == s@.len(),
            i + pat@.len() <= s@.len(),
            k <= pat@.len(),
            forall|j: int| 0 <= j < k ==> s@[i + j] == pat@[j],
        decreases pat@.len() - k,
    {
        if s[i + k] != pat[k] {
            assert(s@.skip(i as int).take(pat@.len() as int)[k as int] != pat@[k as int]);
            return false;
        }
        k += 1;
    }
    assert(s@.skip(i as int).take(pat@.len() as int) =~= pat@);
    true
}

/// `str::replace` on character sequences.
pub fn replace_chars(s: &[char], pat: &[char], rep: &[char]) -> (r: Vec<char>)
    requires
        pat@.len() > 0,
    ensures
        r@ == replace_spec(s@, pat@, rep@),
{
    let mut out: Vec<char> = Vec::new();
    let mut i: usize = 0;
    assert(s@.skip(0) =~= s@);
    while i < s.len()
        invariant
            pat@.len() > 0,
            i <= s@.len(),
            out@ + replace_spec(s@.skip(i as int), pat@, rep@) =~= replace_spec(s@, pat@, rep@),
        decreases s@.len() - i,
    {
        let ghost rest = s@.skip(i as int);
        if matches_at(s, i, pat) {
            assert(rest.take(pat@.len() as int) =~= pat@);
            assert(rest.skip(pat@.len() as int) =~= s@.skip(i + pat@.len()));
            let mut k: usize = 0;
            let ghost out0 = out@;
            while k < rep.len()
                invariant
                    k <= rep@.len(),
                    out@ =~= out0 + rep@.take(k as int),
                decreases rep@.len() - k,
            {
                out.push(rep[k]);
                k += 1;
            }
            assert(rep@.take(rep@.len() as int) =~= rep@);
            i += pat.len();
        } else {
            proof {
                if rest.len() >= pat@.len() {
                    assert(!(rest.take(pat@.len() as int) =~= pat@));
                    assert(rest.skip(1) =~= s@.skip(i + 1));
                } else {
                    // the rest is copied unchanged
                    assert(rest.skip(1) =~= s@.skip(i + 1));
                    assert(replace_spec(rest, pat@, rep@) == rest);
                    assert(replace_spec(rest.skip(1), pat@, rep@) == rest.skip(1));
                    assert(rest =~= seq![rest[0]] + rest.skip(1));
                }
            }
            out.push(s[i]);
            i += 1;
        }
    }
    assert(s@.skip(i as int) =~= Seq::<char>::empty());
    assert(out@ + Seq::<char>::empty() =~= out@);
    out
}

/// `str::replace` with a non-empty pattern.
pub fn replace_str(s: &str, pat: &str, rep: &str) -> (r: String)
    requires
        pat@.len() > 0,
    ensures
        r@ == replace_spec(s@, pat@, rep@),
{
    let sc = chars_of(s);
    let pc = chars_of(pat);
    let rc = chars_of(rep);
    let out = replace_chars(sc.as_slice(), pc.as_slice(), rc.as_slice());
    string_from_chars(out.as_slice())
}


// ---------------------------------------------------------------------------
// Facts about decimal numbers and splits
// ---------------------------------------------------------------------------

/// A decimal representation is made of digits, is not empty, and has the
/// value it represents.
pub proof fn lemma_decimal(n: nat)
    ensures
        decimal(n).len() > 0,
        all_digits(decimal(n)),
        digits_value(decimal(n)) == n,
    decreases n,
{
    let c = digit_char(n % 10);
    assert(digit_value(c) == n % 10);
    if n >= 10 {
        lemma_decimal(n / 10);
        let d = decimal(n / 10);
        assert(decimal(n).drop_last() =~= d);
        lemma_digits_value_push(d, c);
        assert forall|i: int| 0 <= i < decimal(n).len() implies is_digit(#[trigger] decimal(n)[i]) by {
            if i < d.len() {
                assert(decimal(n)[i] == d[i]);
            }
        }
    } else {
        assert(decimal(n).drop_last() =~= Seq::<char>::empty());
        lemma_digits_value_push(Seq::<char>::empty(), c);
        assert(Seq::<char>::empty().push(c) =~= decimal(n));
    }
}

/// Parsing the decimal representation of a 32-bit number gives the number.
pub proof fn lemma_parse_decimal(n: u32)
    ensures
        parse_u32_spec(decimal(n as nat)) == Some(n),
{
    lemma_decimal(n as nat);
    assert(is_digit(decimal(n as nat)[0]));
}

/// A sequence without the separator is a single piece.
pub proof fn lemma_split_no_sep(s: Seq<char>, sep: char)
    requires
        !s.contains(sep),
    ensures
        split_spec(s, sep) =~= seq![s],
    decreases s.len(),
{
    if s.len() > 0 {
        assert(!s.drop_last().contains(sep)) by {
            if s.drop_last().contains(sep) {
                let k = choose|k: int| 0 <= k < s.drop_last().len() && s.drop_last()[k] == sep;
                assert(s[k] == sep);
            }
        }
        lemma_split_no_sep(s.drop_last(), sep);
        assert(s.last() != sep) by {
            assert(s[s.len() - 1] == s.last());
        }
        assert(s.drop_last().push(s.last()) =~= s);
    } else {
        assert(s =~= Seq::<char>::empty());
    }
}

/// Appending a separator and a piece without separators appends the piece.
pub proof fn lemma_split_append(a: Seq<char>, b: Seq<char>, sep: char)
    requires
        !b.contains(sep),
    ensures
        split_spec(a.push(sep) + b, sep) =~= split_spec(a, sep).push(b),
    decreases b.len(),
{
    if b.len() == 0 {
        assert(a.push(sep) + b =~= a.push(sep));
        assert((a.push(sep)).drop_last() =~= a);
        assert(b =~= Seq::<char>::empty());
        assert(a.push(sep).last() == sep);
        assert(split_spec(a.push(sep), sep) == split_spec(a, sep).push(Seq::<char>::empty()));
    } else {
        let b2 = b.drop_last();
        assert(!b2.contains(sep)) by {
            if b2.contains(sep) {
                let k = choose|k: int| 0 <= k < b2.len() && b2[k] == sep;
                assert(b[k] == sep);
            }
        }
        lemma_split_append(a, b2, sep);
        let s = a.push(sep) + b;
        assert(s.drop_last() =~= a.push(sep) + b2);
        assert(s.last() == b.last());
        assert(b.last() != sep) by {
            assert(b[b.len() - 1] == b.last());
        }
        lemma_split_nonempty(a, sep);
        let prev = split_spec(s.drop_last(), sep);
        assert(prev =~= split_spec(a, sep).push(b2));
        assert(split_spec(s, sep) == prev.update(prev.len() - 1, prev.last().push(s.last())));
        assert(b2.push(b.last()) =~= b);
    }
}

/// A decimal representation holds no character other than digits.
pub proof fn lemma_decimal_no(n: nat, c: char)
    requires
        !is_digit(c),
    ensures
        !decimal(n).contains(c),
{
    lemma_decimal(n);
    if decimal(n).contains(c) {
        let k = choose|k: int| 0 <= k < decimal(n).len() && decimal(n)[k] == c;
        assert(is_digit(decimal(n)[k]));
    }
}

/// Where no occurrence of `pat` starts within `x`, replacing in `x + t`
/// keeps `x` and replaces in `t`.
pub proof fn lemma_replace_skip(x: Seq<char>, t: Seq<char>, pat: Seq<char>, rep: Seq<char>)
    requires
        pat.len() > 0,
        forall|k: int|
            0 <= k < x.len() && k + pat.len() <= x.len() + t.len() ==> !((x + t).skip(k).take(
                pat.len() as int,
            ) =~= pat),
    ensures
        replace_spec(x + t, pat, rep) == x + replace_spec(t, pat, rep),
    decreases x.len(),
{
    let s = x + t;
    if x.len() == 0 {
        assert(s =~= t);
    } else if s.len() < pat.len() {
        assert(t.len() < pat.len());
    } else {
        assert(s.skip(0) =~= s);
        assert(!(s.take(pat.len() as int) =~= pat));
        let x1 = x.skip(1);
        assert(s.skip(1) =~= x1 + t);
        assert forall|k: int|
            0 <= k < x1.len() && k + pat.len() <= x1.len() + t.len() implies !((x1 + t).skip(k).take(
            pat.len() as int,
        ) =~= pat) by {
            assert((x1 + t).skip(k) =~= s.skip(k + 1));
        }
        lemma_replace_skip(x1, t, pat, rep);
        assert(seq![s[0]] + (x1 + replace_spec(t, pat, rep)) =~= x + replace_spec(t, pat, rep));
    }
}

/// Replacing in a text that begins with `pat` replaces that occurrence
/// first.
pub proof fn lemma_replace_at(t: Seq<char>, pat: Seq<char>, rep: Seq<char>)
    requires
        pat.len() > 0,
    ensures
        replace_spec(pat + t, pat, rep) == rep + replace_spec(t, pat, rep),
{
    let s = pat + t;
    assert(s.take(pat.len() as int) =~= pat);
    assert(s.skip(pat.len() as int) =~= t);
}

/// A text without a character of `pat` holds no occurrence of it, so
/// replacing leaves it as it is.
pub proof fn lemma_replace_absent(s: Seq<char>, pat: Seq<char>, rep: Seq<char>, c: char)
    requires
        pat.contains(c),
        !s.contains(c),
    ensures
        replace_spec(s, pat, rep) == s,
{
    let j = choose|j: int| 0 <= j < pat.len() && pat[j] == c;
    assert forall|k: int|
        0 <= k < s.len() && k + pat.len() <= s.len() + Seq::<char>::empty().len() implies !((s
        + Seq::<char>::empty()).skip(k).take(pat.len() as int) =~= pat) by {
        if (s + Seq::<char>::empty()).skip(k).take(pat.len() as int) =~= pat {
            assert(s[k + j] == c);
        }
    }
    lemma_replace_skip(s, Seq::<char>::empty(), pat, rep);
    assert(s + Seq::<char>::empty() =~= s);
}

} // verus!
