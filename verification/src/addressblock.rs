use vstd::prelude::*;

use crate::text::{owned, str_eq};
use crate::{is_uninit, BuildError, Protection, SvdError, ValidateLevel};

verus! {
/// Usage of the address block.
#[derive(Clone, Copy, Debug, PartialEq, Eq, Structural)]
pub enum AddressBlockUsage {
    /// Registers
    Registers,
    /// Buffer / Memory
    Buffer,
    /// Reserved
    Reserved,
}

impl Default for AddressBlockUsage {
    fn default() -> (r: Self)
        ensures
            r == AddressBlockUsage::Registers,
    {
        AddressBlockUsage::Registers
    }
}

impl AddressBlockUsage {
    /// The text of each value in an SVD file.
    pub open spec fn as_str_spec(self) -> Seq<char> {
        match self {
            AddressBlockUsage::Registers => "registers"@,
            AddressBlockUsage::Buffer => "buffer"@,
            AddressBlockUsage::Reserved => "reserved"@,
        }
    }

    /// The value that a text of an SVD file denotes, if any.
    pub open spec fn from_str_spec(s: Seq<char>) -> Option<Self> {
        if s == "registers"@ {
            Some(AddressBlockUsage::Registers)
        } else if s == "buffer"@ {
            Some(AddressBlockUsage::Buffer)
        } else if s == "reserved"@ {
            Some(AddressBlockUsage::Reserved)
        } else {
            None
        }
    }

    /// Parse a string into an [`AddressBlockUsage`] value, returning [`Option::None`] if the string is not valid.
    pub fn parse_str(s: &str) -> (r: Option<Self>)
        ensures
            r == Self::from_str_spec(s@),
    {
        if str_eq(s, "registers") {
            Some(AddressBlockUsage::Registers)
        } else if str_eq(s, "buffer") {
            Some(AddressBlockUsage::Buffer)
        } else if str_eq(s, "reserved") {
            Some(AddressBlockUsage::Reserved)
        } else {
            None
        }
    }

    /// Convert this [`AddressBlockUsage`] into a static string.
    pub fn as_str(self) -> (r: &'static str)
        ensures
            r@ == self.as_str_spec(),
    {
        match self {
            AddressBlockUsage::Registers => "registers",
            AddressBlockUsage::Buffer => "buffer",
            AddressBlockUsage::Reserved => "reserved",
        }
    }
}

/// Reading back the text of a value gives the value, and a text is read
/// as a value only if it is the text of that value.
pub proof fn lemma_addressblockusage_str_roundtrip(v: AddressBlockUsage, s: Seq<char>)
    ensures
        AddressBlockUsage::from_str_spec(v.as_str_spec()) == Some(v),
        AddressBlockUsage::from_str_spec(s) == Some(v) ==> v.as_str_spec() == s,
{
    reveal_strlit("registers");
    reveal_strlit("buffer");
    reveal_strlit("reserved");
    assert("registers"@.len() == 9);
    assert("buffer"@.len() == 6);
    assert("reserved"@.len() == 8);
}

///  An uniquely mapped address block to a peripheral
#[derive(Clone, Copy, Debug, PartialEq, Eq, Structural)]
pub struct AddressBlock {
    /// Specifies the start address of an address block relative to the peripheral `baseAddress`.
    pub offset: u32,
    /// Specifies the number of `addressUnitBits` being covered by this address block.
    pub size: u32,
    /// Usage of the address block.
    pub usage: AddressBlockUsage,
    /// Specify the security privilege to access an address region
    pub protection: Option<Protection>,
}

/// Builder for [`AddressBlock`]
#[derive(Clone, Debug, PartialEq, Eq, Structural)]
pub struct AddressBlockBuilder {
    /// The offset, if set.
    pub offset: Option<u32>,
    /// The size, if set.
    pub size: Option<u32>,
    /// The usage, if set.
    pub usage: Option<AddressBlockUsage>,
    /// The protection.
    pub protection: Option<Protection>,
}

impl Default for AddressBlockBuilder {
    fn default() -> (r: Self)
        ensures
            r == (AddressBlockBuilder { offset: None, size: None, usage: None, protection: None }),
    {
        AddressBlockBuilder { offset: None, size: None, usage: None, protection: None }
    }
}

impl From<AddressBlock> for AddressBlockBuilder {
    fn from(d: AddressBlock) -> (r: Self)
        ensures
            r == Self::from_block(d),
    {
        AddressBlockBuilder {
            offset: Some(d.offset),
            size: Some(d.size),
            usage: Some(d.usage),
            protection: d.protection,
        }
    }
}

impl vstd::std_specs::convert::FromSpecImpl<AddressBlock> for AddressBlockBuilder {
    open spec fn obeys_from_spec() -> bool {
        true
    }

    open spec fn from_spec(d: AddressBlock) -> Self {
        Self::from_block(d)
    }
}

impl AddressBlockBuilder {
    /// The builder that holds every value of `d`.
    pub open spec fn from_block(d: AddressBlock) -> Self {
        AddressBlockBuilder {
            offset: Some(d.offset),
            size: Some(d.size),
            usage: Some(d.usage),
            protection: d.protection,
        }
    }

    /// Set the offset of the block
    pub fn offset(self, value: u32) -> (r: Self)
        ensures
            r == (AddressBlockBuilder { offset: Some(value), ..self }),
    {
        AddressBlockBuilder { offset: Some(value), ..self }
    }

    /// Set the size of the block
    pub fn size(self, value: u32) -> (r: Self)
        ensures
            r == (AddressBlockBuilder { size: Some(value), ..self }),
    {
        AddressBlockBuilder { size: Some(value), ..self }
    }

    /// Set the usage of the block
    pub fn usage(self, value: AddressBlockUsage) -> (r: Self)
        ensures
            r == (AddressBlockBuilder { usage: Some(value), ..self }),
    {
        AddressBlockBuilder { usage: Some(value), ..self }
    }

    /// Set the protection of the block
    pub fn protection(self, value: Option<Protection>) -> (r: Self)
        ensures
            r == (AddressBlockBuilder { protection: value, ..self }),
    {
        AddressBlockBuilder { protection: value, ..self }
    }

    /// Validate and build a [`AddressBlock`]: `offset`, `size` and `usage`
    /// must be set, checked in that order.
    pub fn build(self, lvl: ValidateLevel) -> (r: Result<AddressBlock, SvdError>)
        ensures
            self.offset is None ==> is_uninit(r, "offset"@),
            self.offset is Some && self.size is None ==> is_uninit(r, "size"@),
            self.offset is Some && self.size is Some && self.usage is None ==> is_uninit(r, "usage"@),
            self.offset is Some && self.size is Some && self.usage is Some ==> r == Ok::<AddressBlock, SvdError>(
                AddressBlock {
                    offset: self.offset->0,
                    size: self.size->0,
                    usage: self.usage->0,
                    protection: self.protection,
                },
            ),
    {
        let offset = match self.offset {
            Some(v) => v,
            None => return Err(SvdError::Build(BuildError::Uninitialized(owned("offset")))),
        };
        let size = match self.size {
            Some(v) => v,
            None => return Err(SvdError::Build(BuildError::Uninitialized(owned("size")))),
        };
        let usage = match self.usage {
            Some(v) => v,
            None => return Err(SvdError::Build(BuildError::Uninitialized(owned("usage")))),
        };
        let mut de = AddressBlock { offset, size, usage, protection: self.protection };
        if !lvl.is_disabled() {
            de.validate(lvl)?;
        }
        Ok(de)
    }
}

impl AddressBlock {
    /// Make a builder for [`AddressBlock`]
    pub fn builder() -> (r: AddressBlockBuilder)
        ensures
            r == (AddressBlockBuilder { offset: None, size: None, usage: None, protection: None }),
    {
        AddressBlockBuilder::default()
    }

    /// The block after a modification: each value that the builder sets replaces
    /// the current one.
    pub open spec fn modified(self, b: AddressBlockBuilder) -> AddressBlock {
        AddressBlock {
            offset: if let Some(v) = b.offset { v } else { self.offset },
            size: if let Some(v) = b.size { v } else { self.size },
            usage: if let Some(v) = b.usage { v } else { self.usage },
            protection: if b.protection is Some { b.protection } else { self.protection },
        }
    }

    /// Modify an existing [`AddressBlock`] based on a [builder](AddressBlockBuilder).
    pub fn modify_from(&mut self, builder: AddressBlockBuilder, lvl: ValidateLevel) -> (r: Result<(), SvdError>)
        ensures
            *final(self) == old(self).modified(builder),
            r is Ok,
    {
        if let Some(offset) = builder.offset {
            self.offset = offset;
        }
        if let Some(size) = builder.size {
            self.size = size;
        }
        if let Some(usage) = builder.usage {
            self.usage = usage;
        }
        if builder.protection.is_some() {
            self.protection = builder.protection;
        }
        if !lvl.is_disabled() {
            self.validate(lvl)
        } else {
            Ok(())
        }
    }

    /// Validate the [`AddressBlock`]: every address block is valid.
    pub fn validate(&mut self, _lvl: ValidateLevel) -> (r: Result<(), SvdError>)
        ensures
            *final(self) == *old(self),
            r is Ok,
    {
        Ok(())
    }
}

/// A modification by a builder that sets nothing leaves the block as it is.
pub proof fn lemma_address_block_modify_nothing(e: AddressBlock)
    ensures
        e.modified(AddressBlockBuilder { offset: None, size: None, usage: None, protection: None }) == e,
{
}

} // verus!
