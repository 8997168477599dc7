use vstd::prelude::*;
use vstd::std_specs::bits::{axiom_u64_leading_zeros, u64_leading_zeros};

use crate::{Access, Protection, SvdError, ValidateLevel};

verus! {

/// Errors from [`RegisterProperties::validate`]
#[derive(Clone, Copy, Debug, PartialEq, Eq, Structural)]
pub enum Error {
    /// Value is too large
    ValueTooLarge(u64, u32),
    /// reset value is conflicting with the mask
    MaskConflict(u64, u64),
    /// Mask doesn't fit
    MaskTooLarge(u64, u32),
}

/// Register default properties
#[derive(Clone, Copy, Debug, PartialEq, Eq, Structural)]
pub struct RegisterProperties {
    /// Bit-width of register
    pub size: Option<u32>,
    /// Access rights for register
    pub access: Option<Access>,
    /// Specify the security privilege to access an address region
    pub protection: Option<Protection>,
    /// Register value at RESET
    pub reset_value: Option<u64>,
    /// Define which register bits have a defined reset value
    pub reset_mask: Option<u64>,
}

impl Default for RegisterProperties {
    fn default() -> (r: Self)
        ensures
            r == RegisterProperties::empty(),
    {
        RegisterProperties { size: None, access: None, protection: None, reset_value: None, reset_mask: None }
    }
}

/// The number of bits that `v` needs: its position of the highest set bit plus one.
pub open spec fn bit_length(v: u64) -> int {
    64 - u64_leading_zeros(v)
}

/// What [`check_reset_value`] answers: a value wider than the size, then
/// (under strict validation) a mask wider than the size, then a value with
/// bits outside the mask.
pub open spec fn check_reset_value_spec(
    size: Option<u32>,
    value: Option<u64>,
    mask: Option<u64>,
    lvl: ValidateLevel,
) -> Result<(), Error> {
    if size is Some && value is Some && bit_length(value->0) > size->0 {
        Err(Error::ValueTooLarge(value->0, size->0))
    } else if lvl == ValidateLevel::Strict && size is Some && mask is Some && bit_length(mask->0) > size->0 {
        Err(Error::MaskTooLarge(mask->0, size->0))
    } else if lvl == ValidateLevel::Strict && value is Some && mask is Some && value->0 & mask->0 != value->0 {
        Err(Error::MaskConflict(value->0, mask->0))
    } else {
        Ok(())
    }
}

/// The number of bits of `v`.
fn bits_of(v: u64) -> (r: u32)
    ensures
        r == bit_length(v),
{
    proof {
        axiom_u64_leading_zeros(v);
    }
    64 - v.leading_zeros()
}

/// Checks a reset value and a reset mask against a register size.
pub fn check_reset_value(
    size: Option<u32>,
    value: Option<u64>,
    mask: Option<u64>,
    lvl: ValidateLevel,
) -> (r: Result<(), Error>)
    ensures
        r == check_reset_value_spec(size, value, mask, lvl),
{
    if let (Some(size), Some(value)) = (size, value) {
        if bits_of(value) > size {
            return Err(Error::ValueTooLarge(value, size));
        }
    }
    if lvl.is_strict() {
        if let (Some(size), Some(mask)) = (size, mask) {
            if bits_of(mask) > size {
                return Err(Error::MaskTooLarge(mask, size));
            }
        }
        if let (Some(value), Some(mask)) = (value, mask) {
            if value & mask != value {
                return Err(Error::MaskConflict(value, mask));
            }
        }
    }
    Ok(())
}

impl RegisterProperties {
    /// The properties that set nothing.
    pub open spec fn empty() -> Self {
        RegisterProperties { size: None, access: None, protection: None, reset_value: None, reset_mask: None }
    }

    /// What [`Self::validate`] answers.
    pub open spec fn validate_spec(self, lvl: ValidateLevel) -> Result<(), SvdError> {
        match check_reset_value_spec(self.size, self.reset_value, self.reset_mask, lvl) {
            Ok(()) => Ok(()),
            Err(e) => Err(SvdError::RegisterProperties(e)),
        }
    }

    /// The properties after a modification: each value that `b` sets replaces
    /// the current one.
    pub open spec fn modified(self, b: RegisterProperties) -> RegisterProperties {
        RegisterProperties {
            size: if b.size is Some { b.size } else { self.size },
            access: if b.access is Some { b.access } else { self.access },
            protection: if b.protection is Some { b.protection } else { self.protection },
            reset_value: if b.reset_value is Some { b.reset_value } else { self.reset_value },
            reset_mask: if b.reset_mask is Some { b.reset_mask } else { self.reset_mask },
        }
    }

    /// Create a new [`RegisterProperties`].
    pub fn new() -> (r: Self)
        ensures
            r == RegisterProperties::empty(),
    {
        Self::default()
    }

    /// Modify an existing [`RegisterProperties`] based on another.
    pub fn modify_from(&mut self, builder: RegisterProperties, lvl: ValidateLevel) -> (r: Result<(), SvdError>)
        ensures
            *final(self) == old(self).modified(builder),
            r == (if lvl == ValidateLevel::Disabled { Ok(()) } else { final(self).validate_spec(lvl) }),
    {
        if builder.size.is_some() {
            self.size = builder.size;
        }
        if builder.access.is_some() {
            self.access = builder.access;
        }
        if builder.protection.is_some() {
            self.protection = builder.protection;
        }
        if builder.reset_value.is_some() {
            self.reset_value = builder.reset_value;
        }
        if builder.reset_mask.is_some() {
            self.reset_mask = builder.reset_mask;
        }
        if !lvl.is_disabled() {
            self.validate(lvl)
        } else {
            Ok(())
        }
    }

    /// Checks the properties without changing them.
    pub(crate) fn check(&self, lvl: ValidateLevel) -> (r: Result<(), SvdError>)
        ensures
            r == self.validate_spec(lvl),
    {
        match check_reset_value(self.size, self.reset_value, self.reset_mask, lvl) {
            Ok(()) => Ok(()),
            Err(e) => Err(SvdError::RegisterProperties(e)),
        }
    }

    /// Validate the [`RegisterProperties`]
    pub fn validate(&mut self, lvl: ValidateLevel) -> (r: Result<(), SvdError>)
        ensures
            *final(self) == *old(self),
            r == old(self).validate_spec(lvl),
    {
        self.check(lvl)
    }

    /// Set the size of the register properties.
    pub fn size(self, value: Option<u32>) -> (r: Self)
        ensures
            r == (RegisterProperties { size: value, ..self }),
    {
        RegisterProperties { size: value, ..self }
    }

    /// Set the access of the register properties.
    pub fn access(self, value: Option<Access>) -> (r: Self)
        ensures
            r == (RegisterProperties { access: value, ..self }),
    {
        RegisterProperties { access: value, ..self }
    }

    /// Set the protection of the register properties.
    pub fn protection(self, value: Option<Protection>) -> (r: Self)
        ensures
            r == (RegisterProperties { protection: value, ..self }),
    {
        RegisterProperties { protection: value, ..self }
    }

    /// Set the reset_value of the register properties.
    pub fn reset_value(self, value: Option<u64>) -> (r: Self)
        ensures
            r == (RegisterProperties { reset_value: value, ..self }),
    {
        RegisterProperties { reset_value: value, ..self }
    }

    /// Set the reset_mask of the register properties.
    pub fn reset_mask(self, value: Option<u64>) -> (r: Self)
        ensures
            r == (RegisterProperties { reset_mask: value, ..self }),
    {
        RegisterProperties { reset_mask: value, ..self }
    }

    /// Validate and build a [`RegisterProperties`].
    pub fn build(self, lvl: ValidateLevel) -> (r: Result<RegisterProperties, SvdError>)
        ensures
            lvl == ValidateLevel::Disabled ==> r == Ok::<RegisterProperties, SvdError>(self),
            lvl != ValidateLevel::Disabled ==> r == (match self.validate_spec(lvl) {
                Ok(()) => Ok(self),
                Err(e) => Err(e),
            }),
    {
        if !lvl.is_disabled() {
            match self.check(lvl) {
                Ok(()) => {},
                Err(e) => return Err(e),
            }
        }
        Ok(self)
    }
}

/// Modifying by properties that set nothing changes nothing, and the values
/// of the builder win over the current ones.
pub proof fn lemma_register_properties_modify(p: RegisterProperties, b: RegisterProperties)
    ensures
        p.modified(RegisterProperties::empty()) == p,
        p.modified(p) == p,
        b.size is Some ==> p.modified(b).size == b.size,
{
}

} // verus!
