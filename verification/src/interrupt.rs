use vstd::prelude::*;

use crate::text::owned;
use crate::{is_uninit, BuildError, Description, Name, SvdError, ValidateLevel};

verus! {

/// Describes an interrupt in the device
#[derive(Debug, PartialEq, Eq)]
pub struct Interrupt {
    /// The string represents the interrupt name
    pub name: String,
    /// The string describes the interrupt
    pub description: Option<String>,
    /// Represents the enumeration index value associated to the interrupt
    pub value: u32,
}

impl Clone for Interrupt {
    fn clone(&self) -> (r: Self)
        ensures
            r == *self,
    {
        Interrupt {
            name: self.name.clone(),
            description: match &self.description {
                Some(d) => Some(d.clone()),
                None => None,
            },
            value: self.value,
        }
    }
}

/// Builder for [`Interrupt`]
#[derive(Clone, Debug, PartialEq, Eq)]
pub struct InterruptBuilder {
    /// The name, if set.
    pub name: Option<String>,
    /// The description.
    pub description: Option<String>,
    /// The value, if set.
    pub value: Option<u32>,
}

impl Default for InterruptBuilder {
    fn default() -> (r: Self)
        ensures
            r == Self::empty(),
    {
        InterruptBuilder { name: None, description: None, value: None }
    }
}

impl From<Interrupt> for InterruptBuilder {
    fn from(d: Interrupt) -> (r: Self)
        ensures
            r == Self::from_item(d),
    {
        InterruptBuilder { name: Some(d.name), description: d.description, value: Some(d.value) }
    }
}

impl vstd::std_specs::convert::FromSpecImpl<Interrupt> for InterruptBuilder {
    open spec fn obeys_from_spec() -> bool {
        true
    }

    open spec fn from_spec(d: Interrupt) -> Self {
        Self::from_item(d)
    }
}

impl InterruptBuilder {
    /// The builder that sets nothing.
    pub open spec fn empty() -> Self {
        InterruptBuilder { name: None, description: None, value: None }
    }

    /// The builder that holds every value of `d`.
    pub open spec fn from_item(d: Interrupt) -> Self {
        InterruptBuilder { name: Some(d.name), description: d.description, value: Some(d.value) }
    }

    /// Set the name of the interrupt
    pub fn name(self, value: String) -> (r: Self)
        ensures
            r == (InterruptBuilder { name: Some(value), ..self }),
    {
        InterruptBuilder { name: Some(value), ..self }
    }

    /// Set the description of the interrupt
    pub fn description(self, value: Option<String>) -> (r: Self)
        ensures
            r == (InterruptBuilder { description: value, ..self }),
    {
        InterruptBuilder { description: value, ..self }
    }

    /// Set the value of the interrupt
    pub fn value(self, value: u32) -> (r: Self)
        ensures
            r == (InterruptBuilder { value: Some(value), ..self }),
    {
        InterruptBuilder { value: Some(value), ..self }
    }

    /// Validate and build a [`Interrupt`]: the name, then the value, must be set.
    pub fn build(self, lvl: ValidateLevel) -> (r: Result<Interrupt, SvdError>)
        ensures
            self.name is None ==> is_uninit(r, "name"@),
            self.name is Some && self.value is None ==> is_uninit(r, "value"@),
            self.name is Some && self.value is Some ==> r == Ok::<Interrupt, SvdError>(
                Interrupt { name: self.name->0, description: self.description, value: self.value->0 },
            ),
    {
        let name = match self.name {
            Some(v) => v,
            None => return Err(SvdError::Build(BuildError::Uninitialized(owned("name")))),
        };
        let value = match self.value {
            Some(v) => v,
            None => return Err(SvdError::Build(BuildError::Uninitialized(owned("value")))),
        };
        let mut de = Interrupt { name, description: self.description, value };
        if !lvl.is_disabled() {
            match de.validate(lvl) {
                Ok(()) => {},
                Err(e) => return Err(e),
            }
        }
        Ok(de)
    }
}

impl Interrupt {
    /// Make a builder for [`Interrupt`]
    pub fn builder() -> (r: InterruptBuilder)
        ensures
            r == InterruptBuilder::empty(),
    {
        InterruptBuilder::default()
    }

    /// The interrupt after a modification: each value that the builder sets
    /// replaces the current one.
    pub open spec fn modified(self, b: InterruptBuilder) -> Interrupt {
        Interrupt {
            name: if let Some(n) = b.name { n } else { self.name },
            description: if b.description is Some { b.description } else { self.description },
            value: if let Some(v) = b.value { v } else { self.value },
        }
    }

    /// Modify an existing [`Interrupt`] based on a [builder](InterruptBuilder).
    pub fn modify_from(&mut self, builder: InterruptBuilder, lvl: ValidateLevel) -> (r: Result<(), SvdError>)
        ensures
            *final(self) == old(self).modified(builder),
            r is Ok,
    {
        if let Some(name) = builder.name {
            self.name = name;
        }
        if builder.description.is_some() {
            self.description = builder.description;
        }
        if let Some(value) = builder.value {
            self.value = value;
        }
        if !lvl.is_disabled() {
            self.validate(lvl)
        } else {
            Ok(())
        }
    }

    /// Validate the [`Interrupt`]: every interrupt is valid.
    pub fn validate(&mut self, _lvl: ValidateLevel) -> (r: Result<(), SvdError>)
        ensures
            *final(self) == *old(self),
            r is Ok,
    {
        Ok(())
    }
}

impl Name for Interrupt {
    open spec fn name_spec(&self) -> Seq<char> {
        self.name@
    }

    fn name(&self) -> (r: &str) {
        self.name.as_str()
    }
}

impl Description for Interrupt {
    open spec fn description_spec(&self) -> Option<Seq<char>> {
        match self.description {
            Some(d) => Some(d@),
            None => None,
        }
    }

    fn description(&self) -> (r: Option<&str>) {
        match &self.description {
            Some(d) => Some(d.as_str()),
            None => None,
        }
    }
}

/// Building from the values of an interrupt gives the interrupt back, and a
/// modification that sets nothing changes nothing.
pub proof fn lemma_interrupt_rebuild(d: Interrupt, e: Interrupt)
    ensures
        e.modified(InterruptBuilder::from_item(d)).name == d.name,
        e.modified(InterruptBuilder::from_item(d)).value == d.value,
        e.modified(InterruptBuilder::empty()) == e,
{
}

} // verus!
