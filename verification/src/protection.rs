use vstd::prelude::*;

use crate::text::str_eq;

verus! {
/// Specify the security privilege to access an address region
#[derive(Clone, Copy, Debug, PartialEq, Eq, Structural)]
pub enum Protection {
    /// Secure permission required for access
    Secure,
    /// Non-secure or secure permission required for access
    NonSecure,
    /// Privileged permission required for access
    Privileged,
}

impl Default for Protection {
    fn default() -> (r: Self)
        ensures
            r == Protection::NonSecure,
    {
        Protection::NonSecure
    }
}

impl Protection {
    /// The text of each value in an SVD file.
    pub open spec fn as_str_spec(self) -> Seq<char> {
        match self {
            Protection::Secure => "s"@,
            Protection::NonSecure => "n"@,
            Protection::Privileged => "p"@,
        }
    }

    /// The value that a text of an SVD file denotes, if any.
    pub open spec fn from_str_spec(s: Seq<char>) -> Option<Self> {
        if s == "s"@ {
            Some(Protection::Secure)
        } else if s == "n"@ {
            Some(Protection::NonSecure)
        } else if s == "p"@ {
            Some(Protection::Privileged)
        } else {
            None
        }
    }

    /// Parse a string into an [`Protection`] value, returning [`Option::None`] if the string is not valid.
    pub fn parse_str(s: &str) -> (r: Option<Self>)
        ensures
            r == Self::from_str_spec(s@),
    {
        if str_eq(s, "s") {
            Some(Protection::Secure)
        } else if str_eq(s, "n") {
            Some(Protection::NonSecure)
        } else if str_eq(s, "p") {
            Some(Protection::Privileged)
        } else {
            None
        }
    }

    /// Convert this [`Protection`] into a static string.
    pub fn as_str(self) -> (r: &'static str)
        ensures
            r@ == self.as_str_spec(),
    {
        match self {
            Protection::Secure => "s",
            Protection::NonSecure => "n",
            Protection::Privileged => "p",
        }
    }
}

/// Reading back the text of a value gives the value, and a text is read
/// as a value only if it is the text of that value.
pub proof fn lemma_protection_str_roundtrip(v: Protection, s: Seq<char>)
    ensures
        Protection::from_str_spec(v.as_str_spec()) == Some(v),
        Protection::from_str_spec(s) == Some(v) ==> v.as_str_spec() == s,
{
    reveal_strlit("s");
    reveal_strlit("n");
    reveal_strlit("p");
    assert("s"@.len() == 1);
    assert("n"@.len() == 1);
    assert("p"@.len() == 1);
    assert("s"@[0] != "n"@[0]);
    assert("s"@[0] != "p"@[0]);
    assert("n"@[0] != "p"@[0]);
}

} // verus!
