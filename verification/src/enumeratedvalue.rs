use vstd::prelude::*;

use crate::text::owned;
use crate::writeconstraint::in_range;
use crate::{
    all_ident, check_name, empty_to_none, is_uninit, name_error, outcome, nonempty_text, BuildError,
    SvdError, ValidateLevel,
};

verus! {

/// Describes a single entry in the enumeration.
#[derive(Debug, PartialEq, Eq)]
pub struct EnumeratedValue {
    /// String describing the semantics of the value. Can be displayed instead of the value
    pub name: String,
    /// Extended string describing the value
    pub description: Option<String>,
    /// Defines the constant for the bit-field as decimal, hexadecimal or binary number
    pub value: Option<u64>,
    /// Defines the name and description for all other values that are not listed explicitly
    pub is_default: Option<bool>,
}

impl Clone for EnumeratedValue {
    fn clone(&self) -> (r: Self)
        ensures
            r == *self,
    {
        EnumeratedValue {
            name: self.name.clone(),
            description: match &self.description {
                Some(d) => Some(d.clone()),
                None => None,
            },
            value: self.value,
            is_default: self.is_default,
        }
    }
}

/// Errors for [`EnumeratedValue::validate`]
#[derive(Debug, PartialEq, Eq)]
pub enum Error {
    /// No value was specified
    AbsentValue(Option<u64>, Option<bool>),
    /// The value is not in range.
    OutOfRange(u64, core::ops::Range<u64>),
}

impl Clone for Error {
    fn clone(&self) -> (r: Self)
        ensures
            r == *self,
    {
        match self {
            Error::AbsentValue(v, d) => Error::AbsentValue(*v, *d),
            Error::OutOfRange(v, range) => Error::OutOfRange(
                *v,
                core::ops::Range { start: range.start, end: range.end },
            ),
        }
    }
}

/// Builder for [`EnumeratedValue`]
#[derive(Clone, Debug, PartialEq, Eq)]
pub struct EnumeratedValueBuilder {
    /// The name, if set.
    pub name: Option<String>,
    /// The description.
    pub description: Option<String>,
    /// The value.
    pub value: Option<u64>,
    /// Whether this is the default value.
    pub is_default: Option<bool>,
}

impl Default for EnumeratedValueBuilder {
    fn default() -> (r: Self)
        ensures
            r == Self::empty(),
    {
        EnumeratedValueBuilder { name: None, description: None, value: None, is_default: None }
    }
}

impl From<EnumeratedValue> for EnumeratedValueBuilder {
    fn from(e: EnumeratedValue) -> (r: Self)
        ensures
            r == Self::from_value(e),
    {
        EnumeratedValueBuilder {
            name: Some(e.name),
            description: e.description,
            value: e.value,
            is_default: e.is_default,
        }
    }
}

impl vstd::std_specs::convert::FromSpecImpl<EnumeratedValue> for EnumeratedValueBuilder {
    open spec fn obeys_from_spec() -> bool {
        true
    }

    open spec fn from_spec(e: EnumeratedValue) -> Self {
        Self::from_value(e)
    }
}

impl EnumeratedValueBuilder {
    /// The builder that sets nothing.
    pub open spec fn empty() -> Self {
        EnumeratedValueBuilder { name: None, description: None, value: None, is_default: None }
    }

    /// The builder that holds every value of `e`.
    pub open spec fn from_value(e: EnumeratedValue) -> Self {
        EnumeratedValueBuilder {
            name: Some(e.name),
            description: e.description,
            value: e.value,
            is_default: e.is_default,
        }
    }

    /// Set the name of the enumerated value.
    pub fn name(self, value: String) -> (r: Self)
        ensures
            r == (EnumeratedValueBuilder { name: Some(value), ..self }),
    {
        EnumeratedValueBuilder { name: Some(value), ..self }
    }

    /// Set the description of the enumerated value.
    pub fn description(self, value: Option<String>) -> (r: Self)
        ensures
            r == (EnumeratedValueBuilder { description: value, ..self }),
    {
        EnumeratedValueBuilder { description: value, ..self }
    }

    /// Set the value of the enumerated value.
    pub fn value(self, value: Option<u64>) -> (r: Self)
        ensures
            r == (EnumeratedValueBuilder { value: value, ..self }),
    {
        EnumeratedValueBuilder { value, ..self }
    }

    /// Set if the enumerated value is defaulted for non-explicit values.
    pub fn is_default(self, value: Option<bool>) -> (r: Self)
        ensures
            r == (EnumeratedValueBuilder { is_default: value, ..self }),
    {
        EnumeratedValueBuilder { is_default: value, ..self }
    }

    /// The value that a complete builder describes.
    pub open spec fn built(self) -> EnumeratedValue {
        EnumeratedValue {
            name: self.name->0,
            description: nonempty_text(self.description),
            value: self.value,
            is_default: self.is_default,
        }
    }

    /// Validate and build a [`EnumeratedValue`]: the name must be set; an
    /// empty description counts as none; unless validation is disabled, the
    /// value must pass [`EnumeratedValue::validate`].
    pub fn build(self, lvl: ValidateLevel) -> (r: Result<EnumeratedValue, SvdError>)
        ensures
            self.name is None ==> is_uninit(r, "name"@),
            self.name is Some ==> (if lvl == ValidateLevel::Disabled {
                r == Ok::<EnumeratedValue, SvdError>(self.built())
            } else {
                self.built().validate_spec(lvl, outcome(r)) && (r is Ok
                    ==> r == Ok::<EnumeratedValue, SvdError>(self.built()))
            }),
    {
        let name = match self.name {
            Some(v) => v,
            None => return Err(SvdError::Build(BuildError::Uninitialized(owned("name")))),
        };
        let mut ev = EnumeratedValue {
            name,
            description: empty_to_none(self.description),
            value: self.value,
            is_default: self.is_default,
        };
        if !lvl.is_disabled() {
            match ev.validate(lvl) {
                Ok(()) => {},
                Err(e) => return Err(e),
            }
        }
        Ok(ev)
    }
}

impl EnumeratedValue {
    /// Make a builder for [`EnumeratedValue`]
    pub fn builder() -> (r: EnumeratedValueBuilder)
        ensures
            r == EnumeratedValueBuilder::empty(),
    {
        EnumeratedValueBuilder::default()
    }

    /// Whether this entry stands for every value not listed explicitly.
    pub fn is_default(&self) -> (r: bool)
        ensures
            r == (self.is_default == Some(true)),
    {
        match self.is_default {
            Some(true) => true,
            _ => false,
        }
    }

    /// `r` is what [`Self::validate`] answers: under strict validation the name
    /// must be a plain name; then exactly one of `value` and `is_default` must
    /// be given.
    pub open spec fn validate_spec(self, lvl: ValidateLevel, r: Result<(), SvdError>) -> bool {
        if lvl == ValidateLevel::Strict && !all_ident(self.name@) {
            r matches Err(SvdError::Name(e)) && name_error(self.name@, "name"@, e)
        } else if (self.value is Some) != (self.is_default is Some) {
            r is Ok
        } else {
            r == Err::<(), SvdError>(
                SvdError::EnumeratedValue(Error::AbsentValue(self.value, self.is_default)),
            )
        }
    }

    /// The entry after a modification: each value that the builder sets
    /// replaces the current one; an empty description counts as none.
    pub open spec fn modified(self, b: EnumeratedValueBuilder) -> EnumeratedValue {
        EnumeratedValue {
            name: if let Some(n) = b.name { n } else { self.name },
            description: if b.description is Some { nonempty_text(b.description) } else { self.description },
            value: if b.value is Some { b.value } else { self.value },
            is_default: if b.is_default is Some { b.is_default } else { self.is_default },
        }
    }

    /// Modify an existing [`EnumeratedValue`] based on a [builder](EnumeratedValueBuilder).
    pub fn modify_from(&mut self, builder: EnumeratedValueBuilder, lvl: ValidateLevel) -> (r: Result<(), SvdError>)
        ensures
            *final(self) == old(self).modified(builder),
            lvl == ValidateLevel::Disabled ==> r is Ok,
            lvl != ValidateLevel::Disabled ==> final(self).validate_spec(lvl, r),
    {
        if let Some(name) = builder.name {
            self.name = name;
        }
        if builder.description.is_some() {
            self.description = empty_to_none(builder.description);
        }
        if builder.value.is_some() {
            self.value = builder.value;
        }
        if builder.is_default.is_some() {
            self.is_default = builder.is_default;
        }
        if !lvl.is_disabled() {
            self.validate(lvl)
        } else {
            Ok(())
        }
    }

    /// Checks the entry without changing it.
    pub(crate) fn check(&self, lvl: ValidateLevel) -> (r: Result<(), SvdError>)
        ensures
            self.validate_spec(lvl, r),
    {
        if lvl.is_strict() {
            match check_name(self.name.as_str(), "name") {
                Ok(()) => {},
                Err(e) => return Err(SvdError::Name(e)),
            }
        }
        match (&self.value, &self.is_default) {
            (Some(_), None) | (None, Some(_)) => Ok(()),
            _ => Err(SvdError::EnumeratedValue(Error::AbsentValue(self.value, self.is_default))),
        }
    }

    /// Validate the [`EnumeratedValue`].
    pub fn validate(&mut self, lvl: ValidateLevel) -> (r: Result<(), SvdError>)
        ensures
            *final(self) == *old(self),
            old(self).validate_spec(lvl, r),
    {
        self.check(lvl)
    }

    /// What [`Self::check_range`] answers: a value outside `range` is refused.
    pub open spec fn check_range_spec(self, range: core::ops::Range<u64>) -> Result<(), SvdError> {
        match self.value {
            Some(x) => if !in_range(x, range) {
                Err(SvdError::EnumeratedValue(Error::OutOfRange(x, range)))
            } else {
                Ok(())
            },
            None => Ok(()),
        }
    }

    /// Checks that the value, if any, lies within `range`.
    pub(crate) fn check_range(&self, range: &core::ops::Range<u64>) -> (r: Result<(), SvdError>)
        ensures
            r == self.check_range_spec(*range),
    {
        match self.value {
            Some(x) => if !(range.start <= x && x < range.end) {
                Err(
                    SvdError::EnumeratedValue(
                        Error::OutOfRange(x, core::ops::Range { start: range.start, end: range.end }),
                    ),
                )
            } else {
                Ok(())
            },
            None => Ok(()),
        }
    }
}

/// Modifying by a builder that sets nothing leaves the entry as it is.
pub proof fn lemma_enumerated_value_modify_nothing(e: EnumeratedValue)
    ensures
        e.modified(EnumeratedValueBuilder::empty()) == e,
{
}

} // verus!
