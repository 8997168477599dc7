use vstd::prelude::*;

use crate::text::{
    chars_of, decimal, lemma_decimal_no, lemma_parse_decimal, lemma_split_append,
    lemma_split_no_sep, lemma_split_nonempty, parse_u32, parse_u32_spec, push_char, split_chars, split_spec,
    strings_view, u32_to_string, is_digit,
};

verus! {

/// Errors for bit ranges
#[derive(Clone, Copy, Debug, PartialEq, Eq, Structural)]
pub enum Error {
    /// The bit range is 0 bits wide
    ZeroWidth,
}

/// The style of bit range that describes a [BitRange]
#[derive(Clone, Copy, Debug, PartialEq, Eq, Structural)]
pub enum BitRangeType {
    /// A bit range in the format: `[<msb>:<lsb>]`
    BitRange,
    /// A bit range described as offset and width
    OffsetWidth,
    /// A bit range described as lsb and msb as separate elements
    MsbLsb,
}

/// A bit range, describing the [least significant bit](Self::lsb) and [most significant bit](Self::msb)
#[derive(Clone, Copy, Debug, PartialEq, Eq, Structural)]
pub struct BitRange {
    /// Value defining the position of the least significant bit of the field within the register
    pub offset: u32,
    /// Value defining the bit-width of the bitfield within the register
    pub width: u32,
    /// The underlying description of the bit range
    pub range_type: BitRangeType,
}

/// The text `[<msb>:<lsb>]`.
pub open spec fn bit_range_text(msb: nat, lsb: nat) -> Seq<char> {
    seq!['['] + decimal(msb) + seq![':'] + decimal(lsb) + seq![']']
}

/// The most and least significant bits written in a text `[<msb>:<lsb>]`:
/// the text must start with `[` and end with `]`, and the first two
/// `:`-separated parts of what lies between must be 32-bit numbers; further
/// parts are ignored.
pub open spec fn bit_range_parts(t: Seq<char>) -> Option<(u32, u32)> {
    if t.len() >= 2 && t[0] == '[' && t[t.len() - 1] == ']' {
        let parts = split_spec(t.subrange(1, t.len() - 1), ':');
        if parts.len() >= 2 && parse_u32_spec(parts[0]) is Some && parse_u32_spec(parts[1]) is Some {
            Some((parse_u32_spec(parts[0])->0, parse_u32_spec(parts[1])->0))
        } else {
            None
        }
    } else {
        None
    }
}

impl BitRange {
    /// The position of the most significant bit, as a mathematical integer.
    pub open spec fn msb_spec(self) -> int {
        self.offset + self.width - 1
    }

    /// `offset + width - 1` can be computed in 32 bits.
    pub open spec fn msb_ok(self) -> bool {
        1 <= self.offset + self.width <= u32::MAX
    }

    /// Get the position of the least significant bit
    pub fn lsb(&self) -> (r: u32)
        ensures
            r == self.offset,
    {
        self.offset
    }

    /// Get the position of the most significant bit
    pub fn msb(&self) -> (r: u32)
        requires
            self.msb_ok(),
        ensures
            r == self.msb_spec(),
    {
        self.offset + self.width - 1
    }

    /// Get the bit range in the format `[<msb>:<lsb>]`
    pub fn bit_range(&self) -> (r: String)
        requires
            self.msb_ok(),
        ensures
            r@ == bit_range_text(self.msb_spec() as nat, self.offset as nat),
    {
        let mut s = String::new();
        push_char(&mut s, '[');
        let m = u32_to_string(self.msb());
        s.append(m.as_str());
        push_char(&mut s, ':');
        let l = u32_to_string(self.lsb());
        s.append(l.as_str());
        push_char(&mut s, ']');
        assert(s@ =~= bit_range_text(self.msb_spec() as nat, self.offset as nat));
        s
    }

    /// The bit range at `offset`, `width` bits wide, described by offset
    /// and width.
    pub open spec fn offset_width_spec(offset: u32, width: u32) -> Self {
        BitRange { offset, width, range_type: BitRangeType::OffsetWidth }
    }

    /// Construct a [`BitRange`] from a offset and width
    pub fn from_offset_width(offset: u32, width: u32) -> (r: Self)
        ensures
            r == Self::offset_width_spec(offset, width),
    {
        Self { offset, width, range_type: BitRangeType::OffsetWidth }
    }

    /// Construct a [`BitRange`] from a msb and lsb
    pub fn from_msb_lsb(msb: u32, lsb: u32) -> (r: Self)
        requires
            lsb <= msb,
            msb - lsb + 1 <= u32::MAX,
        ensures
            r == (BitRange { offset: lsb, width: (msb - lsb + 1) as u32, range_type: BitRangeType::MsbLsb }),
    {
        Self { offset: lsb, width: msb - lsb + 1, range_type: BitRangeType::MsbLsb }
    }

    /// Construct a [`BitRange`] from a string in the format `[<msb>:<lsb>]`.
    /// The text must give `lsb <= msb`, and not the full 33-bit span.
    pub fn from_bit_range(text: &str) -> (r: Option<Self>)
        requires
            bit_range_parts(text@) matches Some((m, l)) ==> l <= m && m - l + 1 <= u32::MAX,
        ensures
            r == (match bit_range_parts(text@) {
                Some((m, l)) => Some(
                    BitRange { offset: l, width: (m - l + 1) as u32, range_type: BitRangeType::BitRange },
                ),
                None => None,
            }),
    {
        let t = chars_of(text);
        let n = t.len();
        if !(n >= 1 && t[0] == '[') || !(n >= 1 && t[n - 1] == ']') {
            return None;
        }
        if n < 2 {
            // a single character cannot both start with `[` and end with `]`
            return None;
        }
        let mut inner: Vec<char> = Vec::new();
        let mut i: usize = 1;
        while i < n - 1
            invariant
                n == t@.len(),
                n >= 2,
                1 <= i <= n - 1,
                inner@ =~= t@.subrange(1, i as int),
            decreases n - 1 - i,
        {
            inner.push(t[i]);
            i += 1;
        }
        let parts = split_chars(inner.as_slice(), ':');
        proof {
            lemma_split_nonempty(inner@, ':');
        }
        assert(strings_view(parts@)[0] == parts@[0]@);
        if parts.len() < 2 {
            return None;
        }
        assert(strings_view(parts@)[1] == parts@[1]@);
        let p0 = chars_of(parts[0].as_str());
        let msb = match parse_u32(p0.as_slice()) {
            Some(v) => v,
            None => return None,
        };
        let p1 = chars_of(parts[1].as_str());
        let lsb = match parse_u32(p1.as_slice()) {
            Some(v) => v,
            None => return None,
        };
        Some(Self { offset: lsb, width: msb - lsb + 1, range_type: BitRangeType::BitRange })
    }
}

/// Reading back the text `[<msb>:<lsb>]` of a bit range gives its most and
/// least significant bits, so it describes the same bits again.
pub proof fn lemma_bit_range_text_roundtrip(b: BitRange)
    requires
        b.msb_ok(),
    ensures
        bit_range_parts(bit_range_text(b.msb_spec() as nat, b.offset as nat)) == Some(
            (b.msb_spec() as u32, b.offset),
        ),
{
    let m = b.msb_spec() as u32;
    let l = b.offset;
    let t = bit_range_text(m as nat, l as nat);
    let inner = decimal(m as nat) + seq![':'] + decimal(l as nat);
    assert(t.subrange(1, t.len() - 1) =~= inner);
    assert(!is_digit(':'));
    lemma_decimal_no(m as nat, ':');
    lemma_decimal_no(l as nat, ':');
    lemma_split_no_sep(decimal(m as nat), ':');
    lemma_split_append(decimal(m as nat), decimal(l as nat), ':');
    assert(decimal(m as nat).push(':') + decimal(l as nat) =~= inner);
    lemma_parse_decimal(m);
    lemma_parse_decimal(l);
}

} // verus!
