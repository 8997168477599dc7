use vstd::prelude::*;

use crate::text::str_eq;

verus! {
/// Specifies the side effect following a read operation
#[derive(Clone, Copy, Debug, PartialEq, Eq, Structural)]
pub enum ReadAction {
    /// The register/field is cleared (set to zero) following a read operation
    Clear,
    /// The register/field is set (set to ones) following a read operation
    SetOnes,
    /// The register/field is modified in some way after a read operation
    Modify,
    /// One or more dependent resources other than the current register/field are immediately affected by a read operation
    ModifyExternal,
}

impl Default for ReadAction {
    fn default() -> (r: Self)
        ensures
            r == ReadAction::Modify,
    {
        ReadAction::Modify
    }
}

impl ReadAction {
    /// The text of each value in an SVD file.
    pub open spec fn as_str_spec(self) -> Seq<char> {
        match self {
            ReadAction::Clear => "clear"@,
            ReadAction::SetOnes => "set"@,
            ReadAction::Modify => "modify"@,
            ReadAction::ModifyExternal => "modifyExternal"@,
        }
    }

    /// The value that a text of an SVD file denotes, if any.
    pub open spec fn from_str_spec(s: Seq<char>) -> Option<Self> {
        if s == "clear"@ {
            Some(ReadAction::Clear)
        } else if s == "set"@ {
            Some(ReadAction::SetOnes)
        } else if s == "modify"@ {
            Some(ReadAction::Modify)
        } else if s == "modifyExternal"@ {
            Some(ReadAction::ModifyExternal)
        } else {
            None
        }
    }

    /// Parse a string into an [`ReadAction`] value, returning [`Option::None`] if the string is not valid.
    pub fn parse_str(s: &str) -> (r: Option<Self>)
        ensures
            r == Self::from_str_spec(s@),
    {
        if str_eq(s, "clear") {
            Some(ReadAction::Clear)
        } else if str_eq(s, "set") {
            Some(ReadAction::SetOnes)
        } else if str_eq(s, "modify") {
            Some(ReadAction::Modify)
        } else if str_eq(s, "modifyExternal") {
            Some(ReadAction::ModifyExternal)
        } else {
            None
        }
    }

    /// Convert this [`ReadAction`] into a static string.
    pub fn as_str(self) -> (r: &'static str)
        ensures
            r@ == self.as_str_spec(),
    {
        match self {
            ReadAction::Clear => "clear",
            ReadAction::SetOnes => "set",
            ReadAction::Modify => "modify",
            ReadAction::ModifyExternal => "modifyExternal",
        }
    }
}

/// Reading back the text of a value gives the value, and a text is read
/// as a value only if it is the text of that value.
pub proof fn lemma_readaction_str_roundtrip(v: ReadAction, s: Seq<char>)
    ensures
        ReadAction::from_str_spec(v.as_str_spec()) == Some(v),
        ReadAction::from_str_spec(s) == Some(v) ==> v.as_str_spec() == s,
{
    reveal_strlit("clear");
    reveal_strlit("set");
    reveal_strlit("modify");
    reveal_strlit("modifyExternal");
    assert("clear"@.len() == 5);
    assert("set"@.len() == 3);
    assert("modify"@.len() == 6);
    assert("modifyExternal"@.len() == 14);
}

} // verus!
