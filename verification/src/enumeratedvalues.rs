use vstd::prelude::*;

use crate::text::owned;
use crate::{
    all_ident, check_derived_name, check_name, derived_name, empty_to_none, name_error,
    nonempty_text, EnumeratedValue, SvdError, Usage, ValidateLevel,
};

verus! {

/// A map describing unsigned integers and their description and name.
#[derive(Debug, PartialEq, Eq)]
pub struct EnumeratedValues {
    /// Identifier for the whole enumeration section
    pub name: Option<String>,
    /// Usage of the values
    pub usage: Option<Usage>,
    /// Makes a copy from a previously defined enumeratedValues section.
    /// No modifications are allowed
    pub derived_from: Option<String>,
    /// List of variants. The number of required items depends on the bit-width of the associated field.
    pub values: Vec<EnumeratedValue>,
}

/// The contents of an [`EnumeratedValues`].
pub struct EnumeratedValuesModel {
    /// Identifier for the whole enumeration section
    pub name: Option<String>,
    /// Usage of the values
    pub usage: Option<Usage>,
    /// The element this one derives from.
    pub derived_from: Option<String>,
    /// The values.
    pub values: Seq<EnumeratedValue>,
}

impl View for EnumeratedValues {
    type V = EnumeratedValuesModel;

    open spec fn view(&self) -> EnumeratedValuesModel {
        EnumeratedValuesModel {
            name: self.name,
            usage: self.usage,
            derived_from: self.derived_from,
            values: self.values@,
        }
    }
}

impl Clone for EnumeratedValues {
    fn clone(&self) -> (r: Self)
        ensures
            r@ == self@,
    {
        EnumeratedValues {
            name: match &self.name {
                Some(n) => Some(n.clone()),
                None => None,
            },
            usage: self.usage,
            derived_from: match &self.derived_from {
                Some(n) => Some(n.clone()),
                None => None,
            },
            values: clone_values(&self.values),
        }
    }
}

/// A copy of a list of enumerated values.
pub fn clone_values(v: &Vec<EnumeratedValue>) -> (r: Vec<EnumeratedValue>)
    ensures
        r@ == v@,
{
    let mut out: Vec<EnumeratedValue> = Vec::new();
    let mut i: usize = 0;
    while i < v.len()
        invariant
            i <= v@.len(),
            out@ =~= v@.take(i as int),
        decreases v@.len() - i,
    {
        out.push(v[i].clone());
        i += 1;
        assert(out@ =~= v@.take(i as int));
    }
    assert(v@.take(v@.len() as int) =~= v@);
    out
}

/// A copy of a list of enumerations, with equal contents.
pub fn clone_enumerations(v: &Vec<EnumeratedValues>) -> (r: Vec<EnumeratedValues>)
    ensures
        r@.len() == v@.len(),
        forall|i: int| 0 <= i < v@.len() ==> (#[trigger] r@[i])@ == v@[i]@,
{
    let mut out: Vec<EnumeratedValues> = Vec::new();
    let mut i: usize = 0;
    while i < v.len()
        invariant
            i <= v@.len(),
            out@.len() == i,
            forall|k: int| 0 <= k < i ==> (#[trigger] out@[k])@ == v@[k]@,
        decreases v@.len() - i,
    {
        out.push(v[i].clone());
        i += 1;
    }
    out
}

/// Errors for [`EnumeratedValues::validate`]
#[derive(Clone, Copy, Debug, PartialEq, Eq, Structural)]
pub enum Error {
    /// Enum is empty
    Empty,
}

/// Builder for [`EnumeratedValues`]
#[derive(Clone, Debug, PartialEq, Eq)]
pub struct EnumeratedValuesBuilder {
    /// The name.
    pub name: Option<String>,
    /// The usage.
    pub usage: Option<Usage>,
    /// The element this one derives from.
    pub derived_from: Option<String>,
    /// The values, if set.
    pub values: Option<Vec<EnumeratedValue>>,
}

impl Default for EnumeratedValuesBuilder {
    fn default() -> (r: Self)
        ensures
            r == Self::empty(),
    {
        EnumeratedValuesBuilder { name: None, usage: None, derived_from: None, values: None }
    }
}

impl From<EnumeratedValues> for EnumeratedValuesBuilder {
    fn from(e: EnumeratedValues) -> (r: Self)
        ensures
            r == Self::from_values(e),
    {
        EnumeratedValuesBuilder {
            name: e.name,
            usage: e.usage,
            derived_from: e.derived_from,
            values: Some(e.values),
        }
    }
}

impl vstd::std_specs::convert::FromSpecImpl<EnumeratedValues> for EnumeratedValuesBuilder {
    open spec fn obeys_from_spec() -> bool {
        true
    }

    open spec fn from_spec(e: EnumeratedValues) -> Self {
        Self::from_values(e)
    }
}

impl EnumeratedValuesBuilder {
    /// The builder that sets nothing.
    pub open spec fn empty() -> Self {
        EnumeratedValuesBuilder { name: None, usage: None, derived_from: None, values: None }
    }

    /// The builder that holds every value of `e`.
    pub open spec fn from_values(e: EnumeratedValues) -> Self {
        EnumeratedValuesBuilder {
            name: e.name,
            usage: e.usage,
            derived_from: e.derived_from,
            values: Some(e.values),
        }
    }

    /// Set the name of the enumerated values
    pub fn name(self, value: Option<String>) -> (r: Self)
        ensures
            r == (EnumeratedValuesBuilder { name: value, ..self }),
    {
        EnumeratedValuesBuilder { name: value, ..self }
    }

    /// Set the usage of the enumerated values
    pub fn usage(self, value: Option<Usage>) -> (r: Self)
        ensures
            r == (EnumeratedValuesBuilder { usage: value, ..self }),
    {
        EnumeratedValuesBuilder { usage: value, ..self }
    }

    /// Set the derived_from attribute for the enumerated values
    pub fn derived_from(self, value: Option<String>) -> (r: Self)
        ensures
            r == (EnumeratedValuesBuilder { derived_from: value, ..self }),
    {
        EnumeratedValuesBuilder { derived_from: value, ..self }
    }

    /// Set the values
    pub fn values(self, value: Vec<EnumeratedValue>) -> (r: Self)
        ensures
            r == (EnumeratedValuesBuilder { values: Some(value), ..self }),
    {
        EnumeratedValuesBuilder { values: Some(value), ..self }
    }

    /// The enumeration that the builder describes.
    pub open spec fn built(self) -> EnumeratedValuesModel {
        EnumeratedValuesModel {
            name: nonempty_text(self.name),
            usage: self.usage,
            derived_from: self.derived_from,
            values: match self.values {
                Some(v) => v@,
                None => Seq::<EnumeratedValue>::empty(),
            },
        }
    }

    /// Validate and build a [`EnumeratedValues`]; missing values count as an
    /// empty list.
    pub fn build(self, lvl: ValidateLevel) -> (r: Result<EnumeratedValues, SvdError>)
        ensures
            r matches Ok(e) ==> e@ == self.built(),
            self.built().validate_spec(lvl, crate::outcome(r)),
    {
        let values = match self.values {
            Some(v) => v,
            None => Vec::new(),
        };
        let evs = EnumeratedValues {
            name: empty_to_none(self.name),
            usage: self.usage,
            derived_from: self.derived_from,
            values,
        };
        assert(evs@ == self.built());
        match evs.validate(lvl) {
            Ok(()) => {},
            Err(e) => return Err(e),
        }
        Ok(evs)
    }
}

impl EnumeratedValuesModel {
    /// `r` is what [`EnumeratedValues::validate`] answers. With validation
    /// enabled: under strict validation a name must be a plain name, and a
    /// `derivedFrom` must be a derived name; an enumeration that derives from
    /// nothing must hold at least one value.
    pub open spec fn validate_spec(self, lvl: ValidateLevel, r: Result<(), SvdError>) -> bool {
        if lvl == ValidateLevel::Disabled {
            r is Ok
        } else if lvl == ValidateLevel::Strict && self.name is Some && !all_ident(self.name->0@) {
            r matches Err(SvdError::Name(e)) && name_error(self.name->0@, "name"@, e)
        } else if self.derived_from is Some {
            if lvl == ValidateLevel::Strict && !derived_name(self.derived_from->0@) {
                r matches Err(SvdError::Name(_))
            } else {
                r is Ok
            }
        } else if self.values.len() == 0 {
            r == Err::<(), SvdError>(SvdError::EnumeratedValues(Error::Empty))
        } else {
            r is Ok
        }
    }

    /// The enumeration after a modification. A builder that derives from
    /// another element records it and clears the name, the usage and the
    /// values; otherwise each value that the builder sets replaces the
    /// current one, an empty name counting as none.
    pub open spec fn modified(self, b: EnumeratedValuesBuilder) -> EnumeratedValuesModel {
        if b.derived_from is Some {
            EnumeratedValuesModel {
                name: None,
                usage: None,
                values: Seq::<EnumeratedValue>::empty(),
                derived_from: b.derived_from,
            }
        } else {
            EnumeratedValuesModel {
                name: if b.name is Some { nonempty_text(b.name) } else { self.name },
                usage: if b.usage is Some { b.usage } else { self.usage },
                values: if let Some(v) = b.values { v@ } else { self.values },
                derived_from: self.derived_from,
            }
        }
    }

    /// `r` is what [`EnumeratedValues::validate_all`] answers: each value in
    /// turn, then the enumeration itself.
    pub open spec fn validate_all_spec(self, lvl: ValidateLevel, r: Result<(), SvdError>) -> bool {
        if exists|i: int| 0 <= i < self.values.len() && !(#[trigger] self.values[i].validate_spec(lvl, Ok(()))) {
            r is Err && exists|i: int|
                0 <= i < self.values.len() && !(#[trigger] self.values[i].validate_spec(lvl, Ok(())))
                    && (forall|j: int| 0 <= j < i ==> self.values[j].validate_spec(lvl, Ok(())))
                    && self.values[i].validate_spec(lvl, r)
        } else {
            self.validate_spec(lvl, r)
        }
    }

    /// What [`EnumeratedValues::check_range`] answers: the first value outside
    /// `range` is refused.
    pub open spec fn check_range_spec(self, range: core::ops::Range<u64>, r: Result<(), SvdError>) -> bool {
        if exists|i: int| 0 <= i < self.values.len() && (#[trigger] self.values[i].check_range_spec(range)) is Err {
            exists|i: int|
                0 <= i < self.values.len() && (forall|j: int| 0 <= j < i ==> self.values[j].check_range_spec(range) is Ok)
                    && r == #[trigger] self.values[i].check_range_spec(range) && r is Err
        } else {
            r is Ok
        }
    }

    /// The usage that these values stand for: none for a derived enumeration,
    /// read-write when unset.
    pub open spec fn usage_spec(self) -> Option<Usage> {
        if self.derived_from is Some {
            None
        } else {
            Some(if let Some(u) = self.usage { u } else { Usage::ReadWrite })
        }
    }
}

impl EnumeratedValues {
    /// Make a builder for [`EnumeratedValues`]
    pub fn builder() -> (r: EnumeratedValuesBuilder)
        ensures
            r == EnumeratedValuesBuilder::empty(),
    {
        EnumeratedValuesBuilder::default()
    }

    /// Return default value if present: the first value marked as default.
    pub fn default_value(&self) -> (r: Option<&EnumeratedValue>)
        ensures
            match r {
                Some(v) => exists|i: int|
                    0 <= i < self.values@.len() && self.values@[i] == *v && v.is_default == Some(true)
                        && forall|j: int| 0 <= j < i ==> self.values@[j].is_default != Some(true),
                None => forall|i: int|
                    0 <= i < self.values@.len() ==> self.values@[i].is_default != Some(true),
            },
    {
        let mut i: usize = 0;
        while i < self.values.len()
            invariant
                i <= self.values@.len(),
                forall|j: int| 0 <= j < i ==> self.values@[j].is_default != Some(true),
            decreases self.values@.len() - i,
        {
            if self.values[i].is_default() {
                return Some(&self.values[i]);
            }
            i += 1;
        }
        None
    }

    /// Modify an existing [`EnumeratedValues`] based on a [builder](EnumeratedValuesBuilder).
    pub fn modify_from(&mut self, builder: EnumeratedValuesBuilder, lvl: ValidateLevel) -> (r: Result<(), SvdError>)
        ensures
            final(self)@ == old(self)@.modified(builder),
            final(self)@.validate_spec(lvl, r),
    {
        if builder.derived_from.is_some() {
            self.name = None;
            self.usage = None;
            self.values = Vec::new();
            self.derived_from = builder.derived_from;
        } else {
            if builder.name.is_some() {
                self.name = empty_to_none(builder.name);
            }
            if builder.usage.is_some() {
                self.usage = builder.usage;
            }
            if let Some(values) = builder.values {
                self.values = values;
            }
        }
        assert(self@.values =~= old(self)@.modified(builder).values);
        self.validate(lvl)
    }

    /// Validate the [`EnumeratedValues`].
    pub fn validate(&self, lvl: ValidateLevel) -> (r: Result<(), SvdError>)
        ensures
            self@.validate_spec(lvl, r),
    {
        if !lvl.is_disabled() {
            if lvl.is_strict() {
                if let Some(name) = self.name.as_ref() {
                    match check_name(name.as_str(), "name") {
                        Ok(()) => {},
                        Err(e) => return Err(SvdError::Name(e)),
                    }
                }
            }
            if let Some(dname) = self.derived_from.as_ref() {
                if lvl.is_strict() {
                    match check_derived_name(dname.as_str(), "derivedFrom") {
                        Ok(()) => {},
                        Err(e) => return Err(SvdError::Name(e)),
                    }
                }
                Ok(())
            } else if self.values.len() == 0 {
                Err(SvdError::EnumeratedValues(Error::Empty))
            } else {
                Ok(())
            }
        } else {
            Ok(())
        }
    }

    /// Validate the [`EnumeratedValues`] recursively
    pub fn validate_all(&self, lvl: ValidateLevel) -> (r: Result<(), SvdError>)
        ensures
            self@.validate_all_spec(lvl, r),
    {
        let mut i: usize = 0;
        while i < self.values.len()
            invariant
                i <= self.values@.len(),
                forall|j: int| 0 <= j < i ==> self.values@[j].validate_spec(lvl, Ok(())),
            decreases self.values@.len() - i,
        {
            let res = self.values[i].check(lvl);
            match res {
                Ok(()) => {},
                Err(e) => {
                    assert(!self.values@[i as int].validate_spec(lvl, Ok(())));
                    return Err(e);
                },
            }
            i += 1;
        }
        self.validate(lvl)
    }

    /// Checks that every value lies within `range`.
    pub(crate) fn check_range(&self, range: core::ops::Range<u64>) -> (r: Result<(), SvdError>)
        ensures
            self@.check_range_spec(range, r),
    {
        let mut i: usize = 0;
        while i < self.values.len()
            invariant
                i <= self.values@.len(),
                forall|j: int| 0 <= j < i ==> self.values@[j].check_range_spec(range) is Ok,
            decreases self.values@.len() - i,
        {
            let res = self.values[i].check_range(&range);
            if res.is_err() {
                return res;
            }
            i += 1;
        }
        Ok(())
    }

    /// Get the usage of these enumerated values.
    pub fn usage(&self) -> (r: Option<Usage>)
        ensures
            r == self@.usage_spec(),
    {
        if self.derived_from.is_some() {
            None
        } else {
            Some(
                match self.usage {
                    Some(u) => u,
                    None => Usage::ReadWrite,
                },
            )
        }
    }

    /// Get `enumeratedValue` by name: the first one with that name.
    pub fn get_value(&self, name: &str) -> (r: Option<&EnumeratedValue>)
        ensures
            match r {
                Some(v) => exists|i: int|
                    0 <= i < self.values@.len() && self.values@[i] == *v && v.name@ == name@
                        && forall|j: int| 0 <= j < i ==> self.values@[j].name@ != name@,
                None => forall|i: int| 0 <= i < self.values@.len() ==> self.values@[i].name@ != name@,
            },
    {
        let key = owned(name);
        let mut i: usize = 0;
        while i < self.values.len()
            invariant
                i <= self.values@.len(),
                key@ == name@,
                forall|j: int| 0 <= j < i ==> self.values@[j].name@ != name@,
            decreases self.values@.len() - i,
        {
            if self.values[i].name == key {
                return Some(&self.values[i]);
            }
            i += 1;
        }
        None
    }
}

impl EnumeratedValues {
    /// Get mutable `enumeratedValue` by name: the first one with that name.
    pub fn get_mut_value(&mut self, name: &str) -> (r: Option<&mut EnumeratedValue>)
        ensures
            match r {
                Some(v) => exists|i: int|
                    0 <= i < old(self).values@.len() && old(self).values@[i] == *v && v.name@ == name@
                        && (forall|j: int| 0 <= j < i ==> old(self).values@[j].name@ != name@)
                        && final(self)@ == (EnumeratedValuesModel {
                            values: old(self).values@.update(i, *final(v)),
                            ..old(self)@
                        }),
                None => (forall|i: int| 0 <= i < old(self).values@.len() ==> old(self).values@[i].name@ != name@)
                    && final(self)@ == old(self)@,
            },
    {
        let key = owned(name);
        let mut i: usize = 0;
        while i < self.values.len()
            invariant
                *self == *old(self),
                i <= self.values@.len(),
                key@ == name@,
                forall|j: int| 0 <= j < i ==> self.values@[j].name@ != name@,
            decreases self.values@.len() - i,
        {
            if self.values[i].name == key {
                let r = &mut self.values[i];
                assert(old(self).values@[i as int] == *r);
                return Some(r);
            }
            i += 1;
        }
        None
    }
}

/// An enumeration that derives from nothing passes weak validation exactly
/// when it holds a value.
pub proof fn lemma_enumerated_values_weak(e: EnumeratedValuesModel)
    requires
        e.derived_from is None,
    ensures
        e.validate_spec(ValidateLevel::Weak, Ok(())) <==> e.values.len() > 0,
{
}

} // verus!
