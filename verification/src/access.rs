use vstd::prelude::*;

use crate::text::str_eq;

verus! {
/// Defines access rights for fields on the device, though it may be specified at a
/// higher level than individual fields.
#[derive(Clone, Copy, Debug, PartialEq, Eq, Structural)]
pub enum Access {
    /// Read access is permitted. Write operations have an undefined effect.
    ReadOnly,
    /// Read and write accesses are permitted.
    ReadWrite,
    /// Read access is always permitted. Only the first write after a reset will affect the content.
    ReadWriteOnce,
    /// Read operations have undefined results. Only the first write after a reset will affect the content.
    WriteOnce,
    /// Read operations have an undefined result. Write access is permitted.
    WriteOnly,
}

impl Default for Access {
    fn default() -> (r: Self)
        ensures
            r == Access::ReadWrite,
    {
        Access::ReadWrite
    }
}

impl Access {
    /// The text of each value in an SVD file.
    pub open spec fn as_str_spec(self) -> Seq<char> {
        match self {
            Access::ReadOnly => "read-only"@,
            Access::ReadWrite => "read-write"@,
            Access::ReadWriteOnce => "read-writeOnce"@,
            Access::WriteOnce => "writeOnce"@,
            Access::WriteOnly => "write-only"@,
        }
    }

    /// The value that a text of an SVD file denotes, if any.
    pub open spec fn from_str_spec(s: Seq<char>) -> Option<Self> {
        if s == "read-only"@ {
            Some(Access::ReadOnly)
        } else if s == "read-write"@ {
            Some(Access::ReadWrite)
        } else if s == "read-writeOnce"@ {
            Some(Access::ReadWriteOnce)
        } else if s == "writeOnce"@ {
            Some(Access::WriteOnce)
        } else if s == "write-only"@ {
            Some(Access::WriteOnly)
        } else {
            None
        }
    }

    /// Parse a string into an [`Access`] value, returning [`Option::None`] if the string is not valid.
    pub fn parse_str(s: &str) -> (r: Option<Self>)
        ensures
            r == Self::from_str_spec(s@),
    {
        if str_eq(s, "read-only") {
            Some(Access::ReadOnly)
        } else if str_eq(s, "read-write") {
            Some(Access::ReadWrite)
        } else if str_eq(s, "read-writeOnce") {
            Some(Access::ReadWriteOnce)
        } else if str_eq(s, "writeOnce") {
            Some(Access::WriteOnce)
        } else if str_eq(s, "write-only") {
            Some(Access::WriteOnly)
        } else {
            None
        }
    }

    /// Convert this [`Access`] into a static string.
    pub fn as_str(self) -> (r: &'static str)
        ensures
            r@ == self.as_str_spec(),
    {
        match self {
            Access::ReadOnly => "read-only",
            Access::ReadWrite => "read-write",
            Access::ReadWriteOnce => "read-writeOnce",
            Access::WriteOnce => "writeOnce",
            Access::WriteOnly => "write-only",
        }
    }

    /// Whether the register/field is readable at least once.
    pub fn can_read(self) -> (r: bool)
        ensures
            r == (self == Access::ReadOnly || self == Access::ReadWrite || self == Access::ReadWriteOnce),
    {
        match self {
            Access::ReadOnly | Access::ReadWrite | Access::ReadWriteOnce => true,
            _ => false,
        }
    }

    /// Whether the register/field is writable at least once.
    pub fn can_write(self) -> (r: bool)
        ensures
            r == (self != Access::ReadOnly),
    {
        match self {
            Access::ReadOnly => false,
            _ => true,
        }
    }
}

/// Reading back the text of a value gives the value, and a text is read
/// as a value only if it is the text of that value.
pub proof fn lemma_access_str_roundtrip(v: Access, s: Seq<char>)
    ensures
        Access::from_str_spec(v.as_str_spec()) == Some(v),
        Access::from_str_spec(s) == Some(v) ==> v.as_str_spec() == s,
{
    reveal_strlit("read-only");
    reveal_strlit("read-write");
    reveal_strlit("read-writeOnce");
    reveal_strlit("writeOnce");
    reveal_strlit("write-only");
    assert("read-only"@.len() == 9);
    assert("read-write"@.len() == 10);
    assert("read-writeOnce"@.len() == 14);
    assert("writeOnce"@.len() == 9);
    assert("write-only"@.len() == 10);
    assert("read-only"@[0] != "writeOnce"@[0]);
    assert("read-write"@[0] != "write-only"@[0]);
}

/// Every access right allows reading or writing.
pub proof fn lemma_access_reads_or_writes(a: Access)
    ensures
        (a == Access::ReadOnly || a == Access::ReadWrite || a == Access::ReadWriteOnce) || a != Access::ReadOnly,
{
}

} // verus!
