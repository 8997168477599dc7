use vstd::prelude::*;

use crate::text::str_eq;

verus! {
/// Register data type
#[derive(Clone, Copy, Debug, PartialEq, Eq, Structural)]
pub enum DataType {
    /// unsigned byte
    U8,
    /// unsigned half word
    U16,
    /// unsigned word
    U32,
    /// unsigned double word
    U64,
    /// signed byte
    I8,
    /// signed half word
    I16,
    /// signed world
    I32,
    /// signed double word
    I64,
    /// pointer to unsigned byte
    U8Ptr,
    /// pointer to unsigned half word
    U16Ptr,
    /// pointer to unsigned word
    U32Ptr,
    /// pointer to unsigned double word
    U64Ptr,
    /// pointer to signed byte
    I8Ptr,
    /// pointer to signed half word
    I16Ptr,
    /// pointer to signed world
    I32Ptr,
    /// pointer to signed double word
    I64Ptr,
}

impl DataType {
    /// The text of each value in an SVD file.
    pub open spec fn as_str_spec(self) -> Seq<char> {
        match self {
            DataType::U8 => "uint8_t"@,
            DataType::U16 => "uint16_t"@,
            DataType::U32 => "uint32_t"@,
            DataType::U64 => "uint64_t"@,
            DataType::I8 => "int8_t"@,
            DataType::I16 => "int16_t"@,
            DataType::I32 => "int32_t"@,
            DataType::I64 => "int64_t"@,
            DataType::U8Ptr => "uint8_t *"@,
            DataType::U16Ptr => "uint16_t *"@,
            DataType::U32Ptr => "uint32_t *"@,
            DataType::U64Ptr => "uint64_t *"@,
            DataType::I8Ptr => "int8_t *"@,
            DataType::I16Ptr => "int16_t *"@,
            DataType::I32Ptr => "int32_t *"@,
            DataType::I64Ptr => "int64_t *"@,
        }
    }

    /// The value that a text of an SVD file denotes, if any.
    pub open spec fn from_str_spec(s: Seq<char>) -> Option<Self> {
        if s == "uint8_t"@ {
            Some(DataType::U8)
        } else if s == "uint16_t"@ {
            Some(DataType::U16)
        } else if s == "uint32_t"@ {
            Some(DataType::U32)
        } else if s == "uint64_t"@ {
            Some(DataType::U64)
        } else if s == "int8_t"@ {
            Some(DataType::I8)
        } else if s == "int16_t"@ {
            Some(DataType::I16)
        } else if s == "int32_t"@ {
            Some(DataType::I32)
        } else if s == "int64_t"@ {
            Some(DataType::I64)
        } else if s == "uint8_t *"@ {
            Some(DataType::U8Ptr)
        } else if s == "uint16_t *"@ {
            Some(DataType::U16Ptr)
        } else if s == "uint32_t *"@ {
            Some(DataType::U32Ptr)
        } else if s == "uint64_t *"@ {
            Some(DataType::U64Ptr)
        } else if s == "int8_t *"@ {
            Some(DataType::I8Ptr)
        } else if s == "int16_t *"@ {
            Some(DataType::I16Ptr)
        } else if s == "int32_t *"@ {
            Some(DataType::I32Ptr)
        } else if s == "int64_t *"@ {
            Some(DataType::I64Ptr)
        } else {
            None
        }
    }

    /// Parse a string into an [`DataType`] value, returning [`Option::None`] if the string is not valid.
    pub fn parse_str(s: &str) -> (r: Option<Self>)
        ensures
            r == Self::from_str_spec(s@),
    {
        if str_eq(s, "uint8_t") {
            Some(DataType::U8)
        } else if str_eq(s, "uint16_t") {
            Some(DataType::U16)
        } else if str_eq(s, "uint32_t") {
            Some(DataType::U32)
        } else if str_eq(s, "uint64_t") {
            Some(DataType::U64)
        } else if str_eq(s, "int8_t") {
            Some(DataType::I8)
        } else if str_eq(s, "int16_t") {
            Some(DataType::I16)
        } else if str_eq(s, "int32_t") {
            Some(DataType::I32)
        } else if str_eq(s, "int64_t") {
            Some(DataType::I64)
        } else if str_eq(s, "uint8_t *") {
            Some(DataType::U8Ptr)
        } else if str_eq(s, "uint16_t *") {
            Some(DataType::U16Ptr)
        } else if str_eq(s, "uint32_t *") {
            Some(DataType::U32Ptr)
        } else if str_eq(s, "uint64_t *") {
            Some(DataType::U64Ptr)
        } else if str_eq(s, "int8_t *") {
            Some(DataType::I8Ptr)
        } else if str_eq(s, "int16_t *") {
            Some(DataType::I16Ptr)
        } else if str_eq(s, "int32_t *") {
            Some(DataType::I32Ptr)
        } else if str_eq(s, "int64_t *") {
            Some(DataType::I64Ptr)
        } else {
            None
        }
    }

    /// Convert this [`DataType`] into a static string.
    pub fn as_str(self) -> (r: &'static str)
        ensures
            r@ == self.as_str_spec(),
    {
        match self {
            DataType::U8 => "uint8_t",
            DataType::U16 => "uint16_t",
            DataType::U32 => "uint32_t",
            DataType::U64 => "uint64_t",
            DataType::I8 => "int8_t",
            DataType::I16 => "int16_t",
            DataType::I32 => "int32_t",
            DataType::I64 => "int64_t",
            DataType::U8Ptr => "uint8_t *",
            DataType::U16Ptr => "uint16_t *",
            DataType::U32Ptr => "uint32_t *",
            DataType::U64Ptr => "uint64_t *",
            DataType::I8Ptr => "int8_t *",
            DataType::I16Ptr => "int16_t *",
            DataType::I32Ptr => "int32_t *",
            DataType::I64Ptr => "int64_t *",
        }
    }
}

/// Reading back the text of a value gives the value, and a text is read
/// as a value only if it is the text of that value.
pub proof fn lemma_datatype_str_roundtrip(v: DataType, s: Seq<char>)
    ensures
        DataType::from_str_spec(v.as_str_spec()) == Some(v),
        DataType::from_str_spec(s) == Some(v) ==> v.as_str_spec() == s,
{
    reveal_strlit("uint8_t");
    reveal_strlit("uint16_t");
    reveal_strlit("uint32_t");
    reveal_strlit("uint64_t");
    reveal_strlit("int8_t");
    reveal_strlit("int16_t");
    reveal_strlit("int32_t");
    reveal_strlit("int64_t");
    reveal_strlit("uint8_t *");
    reveal_strlit("uint16_t *");
    reveal_strlit("uint32_t *");
    reveal_strlit("uint64_t *");
    reveal_strlit("int8_t *");
    reveal_strlit("int16_t *");
    reveal_strlit("int32_t *");
    reveal_strlit("int64_t *");
    assert("uint8_t"@.len() == 7);
    assert("uint16_t"@.len() == 8);
    assert("uint32_t"@.len() == 8);
    assert("uint64_t"@.len() == 8);
    assert("int8_t"@.len() == 6);
    assert("int16_t"@.len() == 7);
    assert("int32_t"@.len() == 7);
    assert("int64_t"@.len() == 7);
    assert("uint8_t *"@.len() == 9);
    assert("uint16_t *"@.len() == 10);
    assert("uint32_t *"@.len() == 10);
    assert("uint64_t *"@.len() == 10);
    assert("int8_t *"@.len() == 8);
    assert("int16_t *"@.len() == 9);
    assert("int32_t *"@.len() == 9);
    assert("int64_t *"@.len() == 9);
    assert("uint8_t"@[0] != "int16_t"@[0]);
    assert("uint8_t"@[0] != "int32_t"@[0]);
    assert("uint8_t"@[0] != "int64_t"@[0]);
    assert("uint16_t"@[4] != "uint32_t"@[4]);
    assert("uint16_t"@[4] != "uint64_t"@[4]);
    assert("uint16_t"@[0] != "int8_t *"@[0]);
    assert("uint32_t"@[4] != "uint64_t"@[4]);
    assert("uint32_t"@[0] != "int8_t *"@[0]);
    assert("uint64_t"@[0] != "int8_t *"@[0]);
    assert("int16_t"@[3] != "int32_t"@[3]);
    assert("int16_t"@[3] != "int64_t"@[3]);
    assert("int32_t"@[3] != "int64_t"@[3]);
    assert("uint8_t *"@[0] != "int16_t *"@[0]);
    assert("uint8_t *"@[0] != "int32_t *"@[0]);
    assert("uint8_t *"@[0] != "int64_t *"@[0]);
    assert("uint16_t *"@[4] != "uint32_t *"@[4]);
    assert("uint16_t *"@[4] != "uint64_t *"@[4]);
    assert("uint32_t *"@[4] != "uint64_t *"@[4]);
    assert("int16_t *"@[3] != "int32_t *"@[3]);
    assert("int16_t *"@[3] != "int64_t *"@[3]);
    assert("int32_t *"@[3] != "int64_t *"@[3]);
}

} // verus!
