use vstd::prelude::*;

use crate::text::str_eq;

verus! {
/// Allows specifying two different enumerated values
/// depending whether it is to be used for a read or a write access.
#[derive(Clone, Copy, Debug, PartialEq, Eq, Structural)]
pub enum Usage {
    /// Read
    Read,
    /// Write
    Write,
    /// Read & Write
    ReadWrite,
}

impl Default for Usage {
    fn default() -> (r: Self)
        ensures
            r == Usage::ReadWrite,
    {
        Usage::ReadWrite
    }
}

impl Usage {
    /// The text of each value in an SVD file.
    pub open spec fn as_str_spec(self) -> Seq<char> {
        match self {
            Usage::Read => "read"@,
            Usage::Write => "write"@,
            Usage::ReadWrite => "read-write"@,
        }
    }

    /// The value that a text of an SVD file denotes, if any.
    pub open spec fn from_str_spec(s: Seq<char>) -> Option<Self> {
        if s == "read"@ {
            Some(Usage::Read)
        } else if s == "write"@ {
            Some(Usage::Write)
        } else if s == "read-write"@ {
            Some(Usage::ReadWrite)
        } else {
            None
        }
    }

    /// Parse a string into an [`Usage`] value, returning [`Option::None`] if the string is not valid.
    pub fn parse_str(s: &str) -> (r: Option<Self>)
        ensures
            r == Self::from_str_spec(s@),
    {
        if str_eq(s, "read") {
            Some(Usage::Read)
        } else if str_eq(s, "write") {
            Some(Usage::Write)
        } else if str_eq(s, "read-write") {
            Some(Usage::ReadWrite)
        } else {
            None
        }
    }

    /// Convert this [`Usage`] into a static string.
    pub fn as_str(self) -> (r: &'static str)
        ensures
            r@ == self.as_str_spec(),
    {
        match self {
            Usage::Read => "read",
            Usage::Write => "write",
            Usage::ReadWrite => "read-write",
        }
    }
}

/// Reading back the text of a value gives the value, and a text is read
/// as a value only if it is the text of that value.
pub proof fn lemma_usage_str_roundtrip(v: Usage, s: Seq<char>)
    ensures
        Usage::from_str_spec(v.as_str_spec()) == Some(v),
        Usage::from_str_spec(s) == Some(v) ==> v.as_str_spec() == s,
{
    reveal_strlit("read");
    reveal_strlit("write");
    reveal_strlit("read-write");
    assert("read"@.len() == 4);
    assert("write"@.len() == 5);
    assert("read-write"@.len() == 10);
}

} // verus!
