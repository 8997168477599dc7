use vstd::prelude::*;

use crate::text::owned;
use crate::{is_uninit, BuildError, Description, Name, SvdError, ValidateLevel};

verus! {

/// Describes a HART ID in the device
#[derive(Clone, Debug, PartialEq, Eq)]
pub struct Hart {
    /// The string represents the HART name
    pub name: String,
    /// The string describes the HART
    pub description: Option<String>,
    /// Represents the enumeration index value associated to the HART
    pub value: u32,
}

/// Builder for [`Hart`]
#[derive(Clone, Debug, PartialEq, Eq)]
pub struct HartBuilder {
    /// The name, if set.
    pub name: Option<String>,
    /// The description.
    pub description: Option<String>,
    /// The value, if set.
    pub value: Option<u32>,
}

impl Default for HartBuilder {
    fn default() -> (r: Self)
        ensures
            r == Self::empty(),
    {
        HartBuilder { name: None, description: None, value: None }
    }
}

impl From<Hart> for HartBuilder {
    fn from(d: Hart) -> (r: Self)
        ensures
            r == Self::from_item(d),
    {
        HartBuilder { name: Some(d.name), description: d.description, value: Some(d.value) }
    }
}

impl vstd::std_specs::convert::FromSpecImpl<Hart> for HartBuilder {
    open spec fn obeys_from_spec() -> bool {
        true
    }

    open spec fn from_spec(d: Hart) -> Self {
        Self::from_item(d)
    }
}

impl HartBuilder {
    /// The builder that sets nothing.
    pub open spec fn empty() -> Self {
        HartBuilder { name: None, description: None, value: None }
    }

    /// The builder that holds every value of `d`.
    pub open spec fn from_item(d: Hart) -> Self {
        HartBuilder { name: Some(d.name), description: d.description, value: Some(d.value) }
    }

    /// Set the name of the HART
    pub fn name(self, value: String) -> (r: Self)
        ensures
            r == (HartBuilder { name: Some(value), ..self }),
    {
        HartBuilder { name: Some(value), ..self }
    }

    /// Set the description of the HART
    pub fn description(self, value: Option<String>) -> (r: Self)
        ensures
            r == (HartBuilder { description: value, ..self }),
    {
        HartBuilder { description: value, ..self }
    }

    /// Set the value of the HART
    pub fn value(self, value: u32) -> (r: Self)
        ensures
            r == (HartBuilder { value: Some(value), ..self }),
    {
        HartBuilder { value: Some(value), ..self }
    }

    /// Validate and build a [`Hart`]: the name, then the value, must be set.
    pub fn build(self, lvl: ValidateLevel) -> (r: Result<Hart, SvdError>)
        ensures
            self.name is None ==> is_uninit(r, "name"@),
            self.name is Some && self.value is None ==> is_uninit(r, "value"@),
            self.name is Some && self.value is Some ==> r == Ok::<Hart, SvdError>(
                Hart { name: self.name->0, description: self.description, value: self.value->0 },
            ),
    {
        let name = match self.name {
            Some(v) => v,
            None => return Err(SvdError::Build(BuildError::Uninitialized(owned("name")))),
        };
        let value = match self.value {
            Some(v) => v,
            None => return Err(SvdError::Build(BuildError::Uninitialized(owned("value")))),
        };
        let mut de = Hart { name, description: self.description, value };
        {
            match de.validate(lvl) {
                Ok(()) => {},
                Err(e) => return Err(e),
            }
        }
        Ok(de)
    }
}

impl Hart {
    /// Make a builder for [`Hart`]
    pub fn builder() -> (r: HartBuilder)
        ensures
            r == HartBuilder::empty(),
    {
        HartBuilder::default()
    }

    /// The HART after a modification: each value that the builder sets
    /// replaces the current one.
    pub open spec fn modified(self, b: HartBuilder) -> Hart {
        Hart {
            name: if let Some(n) = b.name { n } else { self.name },
            description: if b.description is Some { b.description } else { self.description },
            value: if let Some(v) = b.value { v } else { self.value },
        }
    }

    /// Modify an existing [`Hart`] based on a [builder](HartBuilder).
    pub fn modify_from(&mut self, builder: HartBuilder, lvl: ValidateLevel) -> (r: Result<(), SvdError>)
        ensures
            *final(self) == old(self).modified(builder),
            r is Ok,
    {
        if let Some(name) = builder.name {
            self.name = name;
        }
        if builder.description.is_some() {
            self.description = builder.description;
        }
        if let Some(value) = builder.value {
            self.value = value;
        }
        self.validate(lvl)
    }

    /// Validate the [`Hart`]: every HART is valid.
    pub fn validate(&self, _lvl: ValidateLevel) -> (r: Result<(), SvdError>)
        ensures
            
            r is Ok,
    {
        Ok(())
    }
}

impl Name for Hart {
    open spec fn name_spec(&self) -> Seq<char> {
        self.name@
    }

    fn name(&self) -> (r: &str) {
        self.name.as_str()
    }
}

impl Description for Hart {
    open spec fn description_spec(&self) -> Option<Seq<char>> {
        match self.description {
            Some(d) => Some(d@),
            None => None,
        }
    }

    fn description(&self) -> (r: Option<&str>) {
        match &self.description {
            Some(d) => Some(d.as_str()),
            None => None,
        }
    }
}

/// Building from the values of a HART gives the HART back, and a
/// modification that sets nothing changes nothing.
pub proof fn lemma_hart_rebuild(d: Hart, e: Hart)
    ensures
        e.modified(HartBuilder::from_item(d)).name == d.name,
        e.modified(HartBuilder::from_item(d)).value == d.value,
        e.modified(HartBuilder::empty()) == e,
{
}

} // verus!
