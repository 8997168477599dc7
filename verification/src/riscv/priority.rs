use vstd::prelude::*;

use crate::text::owned;
use crate::{is_uninit, BuildError, Description, Name, SvdError, ValidateLevel};

verus! {

/// Describes a priority level in the device
#[derive(Clone, Debug, PartialEq, Eq)]
pub struct Priority {
    /// The string represents the priority level name
    pub name: String,
    /// The string describes the priority level
    pub description: Option<String>,
    /// Represents the enumeration index value associated to the priority level
    pub value: u32,
}

/// Builder for [`Priority`]
#[derive(Clone, Debug, PartialEq, Eq)]
pub struct PriorityBuilder {
    /// The name, if set.
    pub name: Option<String>,
    /// The description.
    pub description: Option<String>,
    /// The value, if set.
    pub value: Option<u32>,
}

impl Default for PriorityBuilder {
    fn default() -> (r: Self)
        ensures
            r == Self::empty(),
    {
        PriorityBuilder { name: None, description: None, value: None }
    }
}

impl From<Priority> for PriorityBuilder {
    fn from(d: Priority) -> (r: Self)
        ensures
            r == Self::from_item(d),
    {
        PriorityBuilder { name: Some(d.name), description: d.description, value: Some(d.value) }
    }
}

impl vstd::std_specs::convert::FromSpecImpl<Priority> for PriorityBuilder {
    open spec fn obeys_from_spec() -> bool {
        true
    }

    open spec fn from_spec(d: Priority) -> Self {
        Self::from_item(d)
    }
}

impl PriorityBuilder {
    /// The builder that sets nothing.
    pub open spec fn empty() -> Self {
        PriorityBuilder { name: None, description: None, value: None }
    }

    /// The builder that holds every value of `d`.
    pub open spec fn from_item(d: Priority) -> Self {
        PriorityBuilder { name: Some(d.name), description: d.description, value: Some(d.value) }
    }

    /// Set the name of the priority level
    pub fn name(self, value: String) -> (r: Self)
        ensures
            r == (PriorityBuilder { name: Some(value), ..self }),
    {
        PriorityBuilder { name: Some(value), ..self }
    }

    /// Set the description of the priority level
    pub fn description(self, value: Option<String>) -> (r: Self)
        ensures
            r == (PriorityBuilder { description: value, ..self }),
    {
        PriorityBuilder { description: value, ..self }
    }

    /// Set the value of the priority level
    pub fn value(self, value: u32) -> (r: Self)
        ensures
            r == (PriorityBuilder { value: Some(value), ..self }),
    {
        PriorityBuilder { value: Some(value), ..self }
    }

    /// Validate and build a [`Priority`]: the name, then the value, must be set.
    pub fn build(self, lvl: ValidateLevel) -> (r: Result<Priority, SvdError>)
        ensures
            self.name is None ==> is_uninit(r, "name"@),
            self.name is Some && self.value is None ==> is_uninit(r, "value"@),
            self.name is Some && self.value is Some ==> r == Ok::<Priority, SvdError>(
                Priority { name: self.name->0, description: self.description, value: self.value->0 },
            ),
    {
        let name = match self.name {
            Some(v) => v,
            None => return Err(SvdError::Build(BuildError::Uninitialized(owned("name")))),
        };
        let value = match self.value {
            Some(v) => v,
            None => return Err(SvdError::Build(BuildError::Uninitialized(owned("value")))),
        };
        let mut de = Priority { name, description: self.description, value };
        {
            match de.validate(lvl) {
                Ok(()) => {},
                Err(e) => return Err(e),
            }
        }
        Ok(de)
    }
}

impl Priority {
    /// Make a builder for [`Priority`]
    pub fn builder() -> (r: PriorityBuilder)
        ensures
            r == PriorityBuilder::empty(),
    {
        PriorityBuilder::default()
    }

    /// The priority level after a modification: each value that the builder sets
    /// replaces the current one.
    pub open spec fn modified(self, b: PriorityBuilder) -> Priority {
        Priority {
            name: if let Some(n) = b.name { n } else { self.name },
            description: if b.description is Some { b.description } else { self.description },
            value: if let Some(v) = b.value { v } else { self.value },
        }
    }

    /// Modify an existing [`Priority`] based on a [builder](PriorityBuilder).
    pub fn modify_from(&mut self, builder: PriorityBuilder, lvl: ValidateLevel) -> (r: Result<(), SvdError>)
        ensures
            *final(self) == old(self).modified(builder),
            r is Ok,
    {
        if let Some(name) = builder.name {
            self.name = name;
        }
        if builder.description.is_some() {
            self.description = builder.description;
        }
        if let Some(value) = builder.value {
            self.value = value;
        }
        self.validate(lvl)
    }

    /// Validate the [`Priority`]: every priority level is valid.
    pub fn validate(&self, _lvl: ValidateLevel) -> (r: Result<(), SvdError>)
        ensures
            
            r is Ok,
    {
        Ok(())
    }
}

impl Name for Priority {
    open spec fn name_spec(&self) -> Seq<char> {
        self.name@
    }

    fn name(&self) -> (r: &str) {
        self.name.as_str()
    }
}

impl Description for Priority {
    open spec fn description_spec(&self) -> Option<Seq<char>> {
        match self.description {
            Some(d) => Some(d@),
            None => None,
        }
    }

    fn description(&self) -> (r: Option<&str>) {
        match &self.description {
            Some(d) => Some(d.as_str()),
            None => None,
        }
    }
}

/// Building from the values of a priority level gives the priority level back, and a
/// modification that sets nothing changes nothing.
pub proof fn lemma_priority_rebuild(d: Priority, e: Priority)
    ensures
        e.modified(PriorityBuilder::from_item(d)).name == d.name,
        e.modified(PriorityBuilder::from_item(d)).value == d.value,
        e.modified(PriorityBuilder::empty()) == e,
{
}

} // verus!
