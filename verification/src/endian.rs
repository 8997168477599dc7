use vstd::prelude::*;

use crate::text::str_eq;

verus! {
/// Endianness of a processor.
#[derive(Clone, Copy, Debug, PartialEq, Eq, Structural)]
pub enum Endian {
    /// Little endian.
    Little,
    /// Big endian.
    Big,
    /// Mixed endian.
    Selectable,
    /// Other
    Other,
}

impl Default for Endian {
    fn default() -> (r: Self)
        ensures
            r == Endian::Little,
    {
        Endian::Little
    }
}

impl Endian {
    /// The text of each value in an SVD file.
    pub open spec fn as_str_spec(self) -> Seq<char> {
        match self {
            Endian::Little => "little"@,
            Endian::Big => "big"@,
            Endian::Selectable => "selectable"@,
            Endian::Other => "other"@,
        }
    }

    /// The value that a text of an SVD file denotes, if any.
    pub open spec fn from_str_spec(s: Seq<char>) -> Option<Self> {
        if s == "little"@ {
            Some(Endian::Little)
        } else if s == "big"@ {
            Some(Endian::Big)
        } else if s == "selectable"@ {
            Some(Endian::Selectable)
        } else if s == "other"@ {
            Some(Endian::Other)
        } else {
            None
        }
    }

    /// Parse a string into an [`Endian`] value, returning [`Option::None`] if the string is not valid.
    pub fn parse_str(s: &str) -> (r: Option<Self>)
        ensures
            r == Self::from_str_spec(s@),
    {
        if str_eq(s, "little") {
            Some(Endian::Little)
        } else if str_eq(s, "big") {
            Some(Endian::Big)
        } else if str_eq(s, "selectable") {
            Some(Endian::Selectable)
        } else if str_eq(s, "other") {
            Some(Endian::Other)
        } else {
            None
        }
    }

    /// Convert this [`Endian`] into a static string.
    pub fn as_str(self) -> (r: &'static str)
        ensures
            r@ == self.as_str_spec(),
    {
        match self {
            Endian::Little => "little",
            Endian::Big => "big",
            Endian::Selectable => "selectable",
            Endian::Other => "other",
        }
    }
}

/// Reading back the text of a value gives the value, and a text is read
/// as a value only if it is the text of that value.
pub proof fn lemma_endian_str_roundtrip(v: Endian, s: Seq<char>)
    ensures
        Endian::from_str_spec(v.as_str_spec()) == Some(v),
        Endian::from_str_spec(s) == Some(v) ==> v.as_str_spec() == s,
{
    reveal_strlit("little");
    reveal_strlit("big");
    reveal_strlit("selectable");
    reveal_strlit("other");
    assert("little"@.len() == 6);
    assert("big"@.len() == 3);
    assert("selectable"@.len() == 10);
    assert("other"@.len() == 5);
}

} // verus!
