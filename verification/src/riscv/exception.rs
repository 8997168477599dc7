use vstd::prelude::*;

use crate::text::owned;
use crate::{is_uninit, BuildError, Description, Name, SvdError, ValidateLevel};

verus! {

/// Describes a exception source in the device
#[derive(Clone, Debug, PartialEq, Eq)]
pub struct Exception {
    /// The string represents the exception source name
    pub name: String,
    /// The string describes the exception source
    pub description: Option<String>,
    /// Represents the enumeration index value associated to the exception source
    pub value: u32,
}

/// Builder for [`Exception`]
#[derive(Clone, Debug, PartialEq, Eq)]
pub struct ExceptionBuilder {
    /// The name, if set.
    pub name: Option<String>,
    /// The description.
    pub description: Option<String>,
    /// The value, if set.
    pub value: Option<u32>,
}

impl Default for ExceptionBuilder {
    fn default() -> (r: Self)
        ensures
            r == Self::empty(),
    {
        ExceptionBuilder { name: None, description: None, value: None }
    }
}

impl From<Exception> for ExceptionBuilder {
    fn from(d: Exception) -> (r: Self)
        ensures
            r == Self::from_item(d),
    {
        ExceptionBuilder { name: Some(d.name), description: d.description, value: Some(d.value) }
    }
}

impl vstd::std_specs::convert::FromSpecImpl<Exception> for ExceptionBuilder {
    open spec fn obeys_from_spec() -> bool {
        true
    }

    open spec fn from_spec(d: Exception) -> Self {
        Self::from_item(d)
    }
}

impl ExceptionBuilder {
    /// The builder that sets nothing.
    pub open spec fn empty() -> Self {
        ExceptionBuilder { name: None, description: None, value: None }
    }

    /// The builder that holds every value of `d`.
    pub open spec fn from_item(d: Exception) -> Self {
        ExceptionBuilder { name: Some(d.name), description: d.description, value: Some(d.value) }
    }

    /// Set the name of the exception source
    pub fn name(self, value: String) -> (r: Self)
        ensures
            r == (ExceptionBuilder { name: Some(value), ..self }),
    {
        ExceptionBuilder { name: Some(value), ..self }
    }

    /// Set the description of the exception source
    pub fn description(self, value: Option<String>) -> (r: Self)
        ensures
            r == (ExceptionBuilder { description: value, ..self }),
    {
        ExceptionBuilder { description: value, ..self }
    }

    /// Set the value of the exception source
    pub fn value(self, value: u32) -> (r: Self)
        ensures
            r == (ExceptionBuilder { value: Some(value), ..self }),
    {
        ExceptionBuilder { value: Some(value), ..self }
    }

    /// Validate and build a [`Exception`]: the name, then the value, must be set.
    pub fn build(self, lvl: ValidateLevel) -> (r: Result<Exception, SvdError>)
        ensures
            self.name is None ==> is_uninit(r, "name"@),
            self.name is Some && self.value is None ==> is_uninit(r, "value"@),
            self.name is Some && self.value is Some ==> r == Ok::<Exception, SvdError>(
                Exception { name: self.name->0, description: self.description, value: self.value->0 },
            ),
    {
        let name = match self.name {
            Some(v) => v,
            None => return Err(SvdError::Build(BuildError::Uninitialized(owned("name")))),
        };
        let value = match self.value {
            Some(v) => v,
            None => return Err(SvdError::Build(BuildError::Uninitialized(owned("value")))),
        };
        let mut de = Exception { name, description: self.description, value };
        {
            match de.validate(lvl) {
                Ok(()) => {},
                Err(e) => return Err(e),
            }
        }
        Ok(de)
    }
}

impl Exception {
    /// Make a builder for [`Exception`]
    pub fn builder() -> (r: ExceptionBuilder)
        ensures
            r == ExceptionBuilder::empty(),
    {
        ExceptionBuilder::default()
    }

    /// The exception source after a modification: each value that the builder sets
    /// replaces the current one.
    pub open spec fn modified(self, b: ExceptionBuilder) -> Exception {
        Exception {
            name: if let Some(n) = b.name { n } else { self.name },
            description: if b.description is Some { b.description } else { self.description },
            value: if let Some(v) = b.value { v } else { self.value },
        }
    }

    /// Modify an existing [`Exception`] based on a [builder](ExceptionBuilder).
    pub fn modify_from(&mut self, builder: ExceptionBuilder, lvl: ValidateLevel) -> (r: Result<(), SvdError>)
        ensures
            *final(self) == old(self).modified(builder),
            r is Ok,
    {
        if let Some(name) = builder.name {
            self.name = name;
        }
        if builder.description.is_some() {
            self.description = builder.description;
        }
        if let Some(value) = builder.value {
            self.value = value;
        }
        self.validate(lvl)
    }

    /// Validate the [`Exception`]: every exception source is valid.
    pub fn validate(&self, _lvl: ValidateLevel) -> (r: Result<(), SvdError>)
        ensures
            
            r is Ok,
    {
        Ok(())
    }
}

impl Name for Exception {
    open spec fn name_spec(&self) -> Seq<char> {
        self.name@
    }

    fn name(&self) -> (r: &str) {
        self.name.as_str()
    }
}

impl Description for Exception {
    open spec fn description_spec(&self) -> Option<Seq<char>> {
        match self.description {
            Some(d) => Some(d@),
            None => None,
        }
    }

    fn description(&self) -> (r: Option<&str>) {
        match &self.description {
            Some(d) => Some(d.as_str()),
            None => None,
        }
    }
}

/// Building from the values of an exception source gives the exception source back, and a
/// modification that sets nothing changes nothing.
pub proof fn lemma_exception_rebuild(d: Exception, e: Exception)
    ensures
        e.modified(ExceptionBuilder::from_item(d)).name == d.name,
        e.modified(ExceptionBuilder::from_item(d)).value == d.value,
        e.modified(ExceptionBuilder::empty()) == e,
{
}

} // verus!
