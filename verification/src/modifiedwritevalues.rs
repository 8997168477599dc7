use vstd::prelude::*;

use crate::text::str_eq;

verus! {
/// Describe the manipulation of data written to a register/field.
#[derive(Clone, Copy, Debug, PartialEq, Eq, Structural)]
pub enum ModifiedWriteValues {
    /// Write data bit of one shall clear (set to zero) the corresponding bit in the field
    OneToClear,
    /// Write data bit of one shall set (set to one) the corresponding bit in the field
    OneToSet,
    /// Write data bit of one shall toggle (invert) the corresponding bit in the field
    OneToToggle,
    /// Write data bit of zero shall clear (set to zero) the corresponding bit in the field
    ZeroToClear,
    /// Write data bit of zero shall set (set to one) the corresponding bit in the field
    ZeroToSet,
    /// Write data bit of zero shall toggle (invert) the corresponding bit in the field
    ZeroToToggle,
    /// After a write operation all bits in the field are cleared (set to zero)
    Clear,
    /// After a write operation all bits in the field are set (set to one)
    SetOnes,
    /// After a write operation all bit in the field may be modified (default)
    Modify,
}

impl Default for ModifiedWriteValues {
    fn default() -> (r: Self)
        ensures
            r == ModifiedWriteValues::Modify,
    {
        ModifiedWriteValues::Modify
    }
}

impl ModifiedWriteValues {
    /// The text of each value in an SVD file.
    pub open spec fn as_str_spec(self) -> Seq<char> {
        match self {
            ModifiedWriteValues::OneToClear => "oneToClear"@,
            ModifiedWriteValues::OneToSet => "oneToSet"@,
            ModifiedWriteValues::OneToToggle => "oneToToggle"@,
            ModifiedWriteValues::ZeroToClear => "zeroToClear"@,
            ModifiedWriteValues::ZeroToSet => "zeroToSet"@,
            ModifiedWriteValues::ZeroToToggle => "zeroToToggle"@,
            ModifiedWriteValues::Clear => "clear"@,
            ModifiedWriteValues::SetOnes => "set"@,
            ModifiedWriteValues::Modify => "modify"@,
        }
    }

    /// The value that a text of an SVD file denotes, if any.
    pub open spec fn from_str_spec(s: Seq<char>) -> Option<Self> {
        if s == "oneToClear"@ {
            Some(ModifiedWriteValues::OneToClear)
        } else if s == "oneToSet"@ {
            Some(ModifiedWriteValues::OneToSet)
        } else if s == "oneToToggle"@ {
            Some(ModifiedWriteValues::OneToToggle)
        } else if s == "zeroToClear"@ {
            Some(ModifiedWriteValues::ZeroToClear)
        } else if s == "zeroToSet"@ {
            Some(ModifiedWriteValues::ZeroToSet)
        } else if s == "zeroToToggle"@ {
            Some(ModifiedWriteValues::ZeroToToggle)
        } else if s == "clear"@ {
            Some(ModifiedWriteValues::Clear)
        } else if s == "set"@ {
            Some(ModifiedWriteValues::SetOnes)
        } else if s == "modify"@ {
            Some(ModifiedWriteValues::Modify)
        } else {
            None
        }
    }

    /// Parse a string into an [`ModifiedWriteValues`] value, returning [`Option::None`] if the string is not valid.
    pub fn parse_str(s: &str) -> (r: Option<Self>)
        ensures
            r == Self::from_str_spec(s@),
    {
        if str_eq(s, "oneToClear") {
            Some(ModifiedWriteValues::OneToClear)
        } else if str_eq(s, "oneToSet") {
            Some(ModifiedWriteValues::OneToSet)
        } else if str_eq(s, "oneToToggle") {
            Some(ModifiedWriteValues::OneToToggle)
        } else if str_eq(s, "zeroToClear") {
            Some(ModifiedWriteValues::ZeroToClear)
        } else if str_eq(s, "zeroToSet") {
            Some(ModifiedWriteValues::ZeroToSet)
        } else if str_eq(s, "zeroToToggle") {
            Some(ModifiedWriteValues::ZeroToToggle)
        } else if str_eq(s, "clear") {
            Some(ModifiedWriteValues::Clear)
        } else if str_eq(s, "set") {
            Some(ModifiedWriteValues::SetOnes)
        } else if str_eq(s, "modify") {
            Some(ModifiedWriteValues::Modify)
        } else {
            None
        }
    }

    /// Convert this [`ModifiedWriteValues`] into a static string.
    pub fn as_str(self) -> (r: &'static str)
        ensures
            r@ == self.as_str_spec(),
    {
        match self {
            ModifiedWriteValues::OneToClear => "oneToClear",
            ModifiedWriteValues::OneToSet => "oneToSet",
            ModifiedWriteValues::OneToToggle => "oneToToggle",
            ModifiedWriteValues::ZeroToClear => "zeroToClear",
            ModifiedWriteValues::ZeroToSet => "zeroToSet",
            ModifiedWriteValues::ZeroToToggle => "zeroToToggle",
            ModifiedWriteValues::Clear => "clear",
            ModifiedWriteValues::SetOnes => "set",
            ModifiedWriteValues::Modify => "modify",
        }
    }
}

/// Reading back the text of a value gives the value, and a text is read
/// as a value only if it is the text of that value.
pub proof fn lemma_modifiedwritevalues_str_roundtrip(v: ModifiedWriteValues, s: Seq<char>)
    ensures
        ModifiedWriteValues::from_str_spec(v.as_str_spec()) == Some(v),
        ModifiedWriteValues::from_str_spec(s) == Some(v) ==> v.as_str_spec() == s,
{
    reveal_strlit("oneToClear");
    reveal_strlit("oneToSet");
    reveal_strlit("oneToToggle");
    reveal_strlit("zeroToClear");
    reveal_strlit("zeroToSet");
    reveal_strlit("zeroToToggle");
    reveal_strlit("clear");
    reveal_strlit("set");
    reveal_strlit("modify");
    assert("oneToClear"@.len() == 10);
    assert("oneToSet"@.len() == 8);
    assert("oneToToggle"@.len() == 11);
    assert("zeroToClear"@.len() == 11);
    assert("zeroToSet"@.len() == 9);
    assert("zeroToToggle"@.len() == 12);
    assert("clear"@.len() == 5);
    assert("set"@.len() == 3);
    assert("modify"@.len() == 6);
    assert("oneToToggle"@[0] != "zeroToClear"@[0]);
}

} // verus!
