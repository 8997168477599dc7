use vstd::prelude::*;

use crate::array::{descriptions, expand_name, expand_text, names};
use crate::dimelement::{indexes_cover, indexes_spec};
use crate::field::{clone_opt, opt_chars};
use crate::text::{owned, str_eq, strings_view};
use crate::{
    all_ident, check_derived_name, check_dimable_name, check_name, derived_name, dimable_name,
    empty_to_none, empty_vec_to_none, is_uninit, name_error, nonempty_list, nonempty_text, outcome,
    Access, BuildError, DataType, Description, DimElement, Field, MaybeArray, ModifiedWriteValues,
    Name, ReadAction, RegisterProperties, SvdError, ValidateLevel, WriteConstraint,
};

verus! {

/// A single register or array of registers. A register is a named, programmable resource that belongs to a [peripheral](crate::Peripheral).
pub type Register = MaybeArray<RegisterInfo>;

/// Errors from [`RegisterInfo::validate`]
#[derive(Clone, Copy, Debug, PartialEq, Eq, Structural)]
pub enum Error {
    /// Register had no fields, but specified a `<fields>` tag.
    EmptyFields,
}

/// A register is a named, programmable resource that belongs to a [peripheral](crate::Peripheral).
#[derive(Debug, PartialEq, Eq)]
pub struct RegisterInfo {
    /// String to identify the register.
    /// Register names are required to be unique within the scope of a peripheral
    pub name: String,
    /// Specifies a register name without the restrictions of an ANSI C identifier.
    pub display_name: Option<String>,
    /// String describing the details of the register
    pub description: Option<String>,
    /// Specifies a group name associated with all alternate register that have the same name
    pub alternate_group: Option<String>,
    /// This tag can reference a register that has been defined above to
    /// current location in the description and that describes the memory location already
    pub alternate_register: Option<String>,
    /// Define the address offset relative to the enclosing element
    pub address_offset: u32,
    /// Specifies register size, access permission and reset value
    pub properties: RegisterProperties,
    /// Register data type
    pub datatype: Option<DataType>,
    /// Specifies the write side effects
    pub modified_write_values: Option<ModifiedWriteValues>,
    /// Specifies the subset of allowed write values
    pub write_constraint: Option<WriteConstraint>,
    /// If set, it specifies the side effect following a read operation.
    /// If not set, the register is not modified
    pub read_action: Option<ReadAction>,
    /// `None` indicates that the `<fields>` node is not present
    pub fields: Option<Vec<Field>>,
    /// Specify the register name from which to inherit data.
    /// Elements specified subsequently override inherited values
    pub derived_from: Option<String>,
}

/// `b` holds clones of the fields of `a`, one for one.
pub open spec fn fields_cloned(a: Option<Vec<Field>>, b: Option<Vec<Field>>) -> bool {
    match (a, b) {
        (Some(x), Some(y)) => x@.len() == y@.len() && forall|i: int|
            0 <= i < x@.len() ==> cloned::<Field>(x@[i], #[trigger] y@[i]),
        (None, None) => true,
        _ => false,
    }
}

/// A copy of an optional list of fields.
pub fn clone_fields(o: &Option<Vec<Field>>) -> (r: Option<Vec<Field>>)
    ensures
        fields_cloned(*o, r),
{
    match o {
        Some(v) => Some(v.clone()),
        None => None,
    }
}

impl RegisterInfo {
    /// `other` is `self` with its fields cloned.
    pub open spec fn copied_as(self, other: RegisterInfo) -> bool {
        &&& fields_cloned(self.fields, other.fields)
        &&& other == RegisterInfo { fields: other.fields, ..self }
    }
}

impl Clone for RegisterInfo {
    fn clone(&self) -> (r: Self)
        ensures
            self.copied_as(r),
    {
        RegisterInfo {
            name: self.name.clone(),
            display_name: clone_opt(&self.display_name),
            description: clone_opt(&self.description),
            alternate_group: clone_opt(&self.alternate_group),
            alternate_register: clone_opt(&self.alternate_register),
            address_offset: self.address_offset,
            properties: self.properties,
            datatype: self.datatype,
            modified_write_values: self.modified_write_values,
            write_constraint: self.write_constraint,
            read_action: self.read_action,
            fields: clone_fields(&self.fields),
            derived_from: clone_opt(&self.derived_from),
        }
    }
}

/// Return the address offsets of each register in an array
pub fn address_offsets(info: &RegisterInfo, dim: &DimElement) -> (r: Vec<u32>)
    requires
        dim.dim == 0 || info.address_offset + (dim.dim - 1) * dim.dim_increment <= u32::MAX,
    ensures
        r@ == Seq::new(dim.dim as nat, |i: int| (info.address_offset + i * dim.dim_increment) as u32),
{
    let mut out: Vec<u32> = Vec::new();
    let mut i: u32 = 0;
    while i < dim.dim
        invariant
            i <= dim.dim,
            dim.dim == 0 || info.address_offset + (dim.dim - 1) * dim.dim_increment <= u32::MAX,
            out@ =~= Seq::new(i as nat, |k: int| (info.address_offset + k * dim.dim_increment) as u32),
        decreases dim.dim - i,
    {
        assert(i * dim.dim_increment <= (dim.dim - 1) * dim.dim_increment) by (nonlinear_arith)
            requires
                i <= dim.dim - 1,
        ;
        out.push(info.address_offset + i * dim.dim_increment);
        i += 1;
    }
    out
}

/// The register of an array with index text `idx`: named and described
/// after the index, placed at `offset`; the display name is expanded too.
pub open spec fn register_element(info: RegisterInfo, r: RegisterInfo, idx: Seq<char>, offset: u32) -> bool {
    &&& r.name@ == expand_name(info.name@, idx)
    &&& opt_chars(r.description) == match info.description {
        Some(d) => Some(expand_name(d@, idx)),
        None => None,
    }
    &&& opt_chars(r.display_name) == match info.display_name {
        Some(d) => Some(expand_name(d@, idx)),
        None => None,
    }
    &&& r.address_offset == offset
    &&& fields_cloned(info.fields, r.fields)
    &&& r == RegisterInfo {
        name: r.name,
        description: r.description,
        display_name: r.display_name,
        address_offset: r.address_offset,
        fields: r.fields,
        ..info
    }
}

/// Extract `RegisterInfo` items from array
pub fn expand(info: &RegisterInfo, dim: &DimElement) -> (r: Vec<RegisterInfo>)
    requires
        indexes_cover(dim@),
        dim.dim == 0 || info.address_offset + (dim.dim - 1) * dim.dim_increment <= u32::MAX,
    ensures
        r@.len() == dim.dim,
        forall|i: int|
            0 <= i < dim.dim ==> register_element(
                *info,
                #[trigger] r@[i],
                indexes_spec(dim@)[i],
                (info.address_offset + i * dim.dim_increment) as u32,
            ),
{
    let idx = dim.indexes();
    let ns = names(info.name.as_str(), dim);
    let ds = descriptions(
        match &info.description {
            Some(d) => Some(d.as_str()),
            None => None,
        },
        dim,
    );
    let offs = address_offsets(info, dim);
    let mut out: Vec<RegisterInfo> = Vec::new();
    let mut i: usize = 0;
    assert(strings_view(ns@).len() == ns@.len());
    assert(strings_view(idx@).len() == idx@.len());
    while i < ns.len()
        invariant
            i <= ns@.len(),
            ns@.len() == dim.dim,
            idx@.len() == dim.dim,
            ds@.len() == dim.dim,
            offs@.len() == dim.dim,
            strings_view(idx@) == indexes_spec(dim@),
            strings_view(ns@) == Seq::new(
                dim.dim as nat,
                |k: int| expand_name(info.name@, indexes_spec(dim@)[k]),
            ),
            forall|k: int|
                0 <= k < dim.dim ==> match info.description {
                    Some(d) => (#[trigger] ds@[k]) matches Some(s) && s@ == expand_name(
                        d@,
                        indexes_spec(dim@)[k],
                    ),
                    None => ds@[k] is None,
                },
            offs@ == Seq::new(dim.dim as nat, |k: int| (info.address_offset + k * dim.dim_increment) as u32),
            out@.len() == i,
            forall|k: int|
                0 <= k < i ==> register_element(
                    *info,
                    #[trigger] out@[k],
                    indexes_spec(dim@)[k],
                    (info.address_offset + k * dim.dim_increment) as u32,
                ),
        decreases ns@.len() - i,
    {
        let mut reg = info.clone();
        reg.name = ns[i].clone();
        reg.description = clone_opt(&ds[i]);
        reg.address_offset = offs[i];
        reg.display_name = match &info.display_name {
            Some(d) => Some(expand_text(d.as_str(), idx[i].as_str())),
            None => None,
        };
        assert(strings_view(ns@)[i as int] == ns@[i as int]@);
        assert(strings_view(idx@)[i as int] == idx@[i as int]@);
        out.push(reg);
        i += 1;
    }
    out
}

/// Builder for [`RegisterInfo`]
#[derive(Debug, PartialEq, Eq)]
pub struct RegisterInfoBuilder {
    /// The name, if set.
    pub name: Option<String>,
    /// The display name, if set.
    pub display_name: Option<String>,
    /// The description, if set.
    pub description: Option<String>,
    /// The alternate group, if set.
    pub alternate_group: Option<String>,
    /// The alternate register, if set.
    pub alternate_register: Option<String>,
    /// The address offset, if set.
    pub address_offset: Option<u32>,
    /// The register properties.
    pub properties: RegisterProperties,
    /// The data type, if set.
    pub datatype: Option<DataType>,
    /// The modified write values, if set.
    pub modified_write_values: Option<ModifiedWriteValues>,
    /// The write constraint, if set.
    pub write_constraint: Option<WriteConstraint>,
    /// The read action, if set.
    pub read_action: Option<ReadAction>,
    /// The fields, if set.
    pub fields: Option<Vec<Field>>,
    /// The element this one derives from, if set.
    pub derived_from: Option<String>,
}

impl Default for RegisterInfoBuilder {
    fn default() -> (r: Self)
        ensures
            r == RegisterInfoBuilder::empty(),
    {
        RegisterInfoBuilder {
            name: None,
            display_name: None,
            description: None,
            alternate_group: None,
            alternate_register: None,
            address_offset: None,
            properties: RegisterProperties::new(),
            datatype: None,
            modified_write_values: None,
            write_constraint: None,
            read_action: None,
            fields: None,
            derived_from: None,
        }
    }
}

impl From<RegisterInfo> for RegisterInfoBuilder {
    fn from(r: RegisterInfo) -> (b: Self)
        ensures
            b == Self::from_info(r),
    {
        RegisterInfoBuilder {
            name: Some(r.name),
            display_name: r.display_name,
            description: r.description,
            alternate_group: r.alternate_group,
            alternate_register: r.alternate_register,
            address_offset: Some(r.address_offset),
            properties: r.properties,
            datatype: r.datatype,
            modified_write_values: r.modified_write_values,
            write_constraint: r.write_constraint,
            read_action: r.read_action,
            fields: r.fields,
            derived_from: r.derived_from,
        }
    }
}

impl vstd::std_specs::convert::FromSpecImpl<RegisterInfo> for RegisterInfoBuilder {
    open spec fn obeys_from_spec() -> bool {
        true
    }

    open spec fn from_spec(r: RegisterInfo) -> Self {
        Self::from_info(r)
    }
}

/// What validating register properties answers at level `lvl`.
pub open spec fn properties_outcome(p: RegisterProperties, lvl: ValidateLevel) -> Result<(), SvdError> {
    if lvl == ValidateLevel::Disabled {
        Ok(())
    } else {
        p.validate_spec(lvl)
    }
}

impl RegisterInfoBuilder {
    /// The builder that sets nothing.
    pub open spec fn empty() -> Self {
        RegisterInfoBuilder {
            name: None,
            display_name: None,
            description: None,
            alternate_group: None,
            alternate_register: None,
            address_offset: None,
            properties: RegisterProperties::empty(),
            datatype: None,
            modified_write_values: None,
            write_constraint: None,
            read_action: None,
            fields: None,
            derived_from: None,
        }
    }

    /// The builder that holds every value of `r`.
    pub open spec fn from_info(r: RegisterInfo) -> Self {
        RegisterInfoBuilder {
            name: Some(r.name),
            display_name: r.display_name,
            description: r.description,
            alternate_group: r.alternate_group,
            alternate_register: r.alternate_register,
            address_offset: Some(r.address_offset),
            properties: r.properties,
            datatype: r.datatype,
            modified_write_values: r.modified_write_values,
            write_constraint: r.write_constraint,
            read_action: r.read_action,
            fields: r.fields,
            derived_from: r.derived_from,
        }
    }

    /// The register that a builder with a name and an address offset
    /// describes.
    pub open spec fn built(self) -> RegisterInfo {
        RegisterInfo {
            name: self.name->0,
            display_name: self.display_name,
            description: self.description,
            alternate_group: self.alternate_group,
            alternate_register: self.alternate_register,
            address_offset: self.address_offset->0,
            properties: self.properties,
            datatype: self.datatype,
            modified_write_values: self.modified_write_values,
            write_constraint: self.write_constraint,
            read_action: self.read_action,
            fields: self.fields,
            derived_from: self.derived_from,
        }
    }

    /// Set the name of the register.
    pub fn name(self, value: String) -> (r: Self)
        ensures
            r == (RegisterInfoBuilder { name: Some(value), ..self }),
    {
        RegisterInfoBuilder { name: Some(value), ..self }
    }

    /// Set the display name of the register.
    pub fn display_name(self, value: Option<String>) -> (r: Self)
        ensures
            r == (RegisterInfoBuilder { display_name: value, ..self }),
    {
        RegisterInfoBuilder { display_name: value, ..self }
    }

    /// Set the description of the register.
    pub fn description(self, value: Option<String>) -> (r: Self)
        ensures
            r == (RegisterInfoBuilder { description: value, ..self }),
    {
        RegisterInfoBuilder { description: value, ..self }
    }

    /// Set the alternate group of the register.
    pub fn alternate_group(self, value: Option<String>) -> (r: Self)
        ensures
            r == (RegisterInfoBuilder { alternate_group: value, ..self }),
    {
        RegisterInfoBuilder { alternate_group: value, ..self }
    }

    /// Set the alternate register of the register.
    pub fn alternate_register(self, value: Option<String>) -> (r: Self)
        ensures
            r == (RegisterInfoBuilder { alternate_register: value, ..self }),
    {
        RegisterInfoBuilder { alternate_register: value, ..self }
    }

    /// Set the address offset of the register.
    pub fn address_offset(self, value: u32) -> (r: Self)
        ensures
            r == (RegisterInfoBuilder { address_offset: Some(value), ..self }),
    {
        RegisterInfoBuilder { address_offset: Some(value), ..self }
    }

    /// Set the properties of the register.
    pub fn properties(self, value: RegisterProperties) -> (r: Self)
        ensures
            r == (RegisterInfoBuilder { properties: value, ..self }),
    {
        RegisterInfoBuilder { properties: value, ..self }
    }

    /// Set the datatype of the register.
    pub fn datatype(self, value: Option<DataType>) -> (r: Self)
        ensures
            r == (RegisterInfoBuilder { datatype: value, ..self }),
    {
        RegisterInfoBuilder { datatype: value, ..self }
    }

    /// Set the size of the register.
    pub fn size(self, value: Option<u32>) -> (r: Self)
        ensures
            r == (RegisterInfoBuilder { properties: RegisterProperties { size: value, ..self.properties }, ..self }),
    {
        let p = self.properties.size(value);
        RegisterInfoBuilder { properties: p, ..self }
    }

    /// Set the access of the register.
    pub fn access(self, value: Option<Access>) -> (r: Self)
        ensures
            r == (RegisterInfoBuilder { properties: RegisterProperties { access: value, ..self.properties }, ..self }),
    {
        let p = self.properties.access(value);
        RegisterInfoBuilder { properties: p, ..self }
    }

    /// Set the reset value of the register.
    pub fn reset_value(self, value: Option<u64>) -> (r: Self)
        ensures
            r == (RegisterInfoBuilder {
                properties: RegisterProperties { reset_value: value, ..self.properties },
                ..self
            }),
    {
        let p = self.properties.reset_value(value);
        RegisterInfoBuilder { properties: p, ..self }
    }

    /// Set the reset mask of the register.
    pub fn reset_mask(self, value: Option<u64>) -> (r: Self)
        ensures
            r == (RegisterInfoBuilder {
                properties: RegisterProperties { reset_mask: value, ..self.properties },
                ..self
            }),
    {
        let p = self.properties.reset_mask(value);
        RegisterInfoBuilder { properties: p, ..self }
    }

    /// Set the modified write values of the register.
    pub fn modified_write_values(self, value: Option<ModifiedWriteValues>) -> (r: Self)
        ensures
            r == (RegisterInfoBuilder { modified_write_values: value, ..self }),
    {
        RegisterInfoBuilder { modified_write_values: value, ..self }
    }

    /// Set the write constraint of the register.
    pub fn write_constraint(self, value: Option<WriteConstraint>) -> (r: Self)
        ensures
            r == (RegisterInfoBuilder { write_constraint: value, ..self }),
    {
        RegisterInfoBuilder { write_constraint: value, ..self }
    }

    /// Set the read action of the register.
    pub fn read_action(self, value: Option<ReadAction>) -> (r: Self)
        ensures
            r == (RegisterInfoBuilder { read_action: value, ..self }),
    {
        RegisterInfoBuilder { read_action: value, ..self }
    }

    /// Set the fields of the register.
    pub fn fields(self, value: Option<Vec<Field>>) -> (r: Self)
        ensures
            r == (RegisterInfoBuilder { fields: value, ..self }),
    {
        RegisterInfoBuilder { fields: value, ..self }
    }

    /// Set the derived_from attribute of the register.
    pub fn derived_from(self, value: Option<String>) -> (r: Self)
        ensures
            r == (RegisterInfoBuilder { derived_from: value, ..self }),
    {
        RegisterInfoBuilder { derived_from: value, ..self }
    }

    /// Validate and build a [`RegisterInfo`]: a name, then an address
    /// offset, must be known; the properties are validated, then the
    /// register.
    pub fn build(self, lvl: ValidateLevel) -> (r: Result<RegisterInfo, SvdError>)
        ensures
            self.name is None ==> is_uninit(r, "name"@),
            self.name is Some && self.address_offset is None ==> is_uninit(r, "address_offset"@),
            self.name is Some && self.address_offset is Some ==> {
                &&& properties_outcome(self.properties, lvl) is Err ==> outcome(r) == properties_outcome(
                    self.properties,
                    lvl,
                )
                &&& properties_outcome(self.properties, lvl) is Ok ==> self.built().validate_spec(lvl, outcome(r))
                &&& r matches Ok(x) ==> x == self.built()
            },
    {
        let name = match self.name {
            Some(n) => n,
            None => return Err(SvdError::Build(BuildError::Uninitialized(owned("name")))),
        };
        let address_offset = match self.address_offset {
            Some(a) => a,
            None => return Err(SvdError::Build(BuildError::Uninitialized(owned("address_offset")))),
        };
        let properties = match self.properties.build(lvl) {
            Ok(p) => p,
            Err(e) => return Err(e),
        };
        let reg = RegisterInfo {
            name,
            display_name: self.display_name,
            description: self.description,
            alternate_group: self.alternate_group,
            alternate_register: self.alternate_register,
            address_offset,
            properties,
            datatype: self.datatype,
            modified_write_values: self.modified_write_values,
            write_constraint: self.write_constraint,
            read_action: self.read_action,
            fields: self.fields,
            derived_from: self.derived_from,
        };
        match reg.validate(lvl) {
            Ok(()) => Ok(reg),
            Err(e) => Err(e),
        }
    }
}

/// The fields of an optional list, none counting as empty.
pub open spec fn fields_of(o: Option<Vec<Field>>) -> Seq<Field> {
    match o {
        Some(v) => v@,
        None => Seq::empty(),
    }
}

/// A field passes recursive validation.
pub open spec fn field_ok(f: Field, lvl: ValidateLevel) -> bool {
    f.info_spec()@.validate_all_spec(lvl, Ok(()))
}

impl RegisterInfo {
    /// `r` is what [`RegisterInfo::validate`] answers. With validation
    /// enabled, in this order: under strict validation the name must be a
    /// dimable name, the alternate group a plain name, the alternate register
    /// a dimable name; a `derivedFrom` must then be a derived name under
    /// strict validation; otherwise, under strict validation, a `<fields>`
    /// tag must hold a field.
    pub open spec fn validate_spec(self, lvl: ValidateLevel, r: Result<(), SvdError>) -> bool {
        let strict = lvl == ValidateLevel::Strict;
        if lvl == ValidateLevel::Disabled {
            r is Ok
        } else if strict && !dimable_name(self.name@) {
            r matches Err(SvdError::Name(e)) && name_error(self.name@, "name"@, e)
        } else if strict && self.alternate_group is Some && !all_ident(self.alternate_group->0@) {
            r matches Err(SvdError::Name(e)) && name_error(self.alternate_group->0@, "alternateGroup"@, e)
        } else if strict && self.alternate_register is Some && !dimable_name(self.alternate_register->0@) {
            r matches Err(SvdError::Name(e)) && name_error(self.alternate_register->0@, "alternateRegister"@, e)
        } else if self.derived_from is Some {
            if strict && !derived_name(self.derived_from->0@) {
                r matches Err(SvdError::Name(_))
            } else {
                r is Ok
            }
        } else if strict && (self.fields matches Some(f) && f@.len() == 0) {
            r == Err::<(), SvdError>(SvdError::Register(Error::EmptyFields))
        } else {
            r is Ok
        }
    }

    /// `r` is what [`RegisterInfo::validate_all`] answers: the properties,
    /// each field in turn, then the register itself.
    pub open spec fn validate_all_spec(self, lvl: ValidateLevel, r: Result<(), SvdError>) -> bool {
        let fs = fields_of(self.fields);
        if self.properties.validate_spec(lvl) is Err {
            r == self.properties.validate_spec(lvl)
        } else if exists|i: int| 0 <= i < fs.len() && !field_ok(#[trigger] fs[i], lvl) {
            r is Err && exists|i: int|
                0 <= i < fs.len() && !field_ok(#[trigger] fs[i], lvl) && (forall|j: int|
                    0 <= j < i ==> field_ok(fs[j], lvl)) && fs[i].info_spec()@.validate_all_spec(lvl, r)
        } else {
            self.validate_spec(lvl, r)
        }
    }

    /// The register after the head of a modification: the texts (empty ones
    /// counting as none), the name and the address offset.
    pub open spec fn modified_head(self, b: RegisterInfoBuilder) -> RegisterInfo {
        RegisterInfo {
            name: if b.name is Some { b.name->0 } else { self.name },
            display_name: if b.display_name is Some { nonempty_text(b.display_name) } else { self.display_name },
            description: if b.description is Some { nonempty_text(b.description) } else { self.description },
            alternate_group: if b.alternate_group is Some { nonempty_text(b.alternate_group) } else { self.alternate_group },
            alternate_register: if b.alternate_register is Some {
                nonempty_text(b.alternate_register)
            } else {
                self.alternate_register
            },
            address_offset: if b.address_offset is Some { b.address_offset->0 } else { self.address_offset },
            ..self
        }
    }

    /// The register after a modification. A builder that derives from
    /// another register clears the fields, the properties, the data type, the
    /// modified write values and the write constraint. Otherwise the
    /// properties are modified by those of the builder, and each other value
    /// that the builder sets replaces the current one (an empty list of
    /// fields counting as none).
    pub open spec fn modified(self, b: RegisterInfoBuilder) -> RegisterInfo {
        let h = self.modified_head(b);
        if b.derived_from is Some {
            RegisterInfo {
                derived_from: b.derived_from,
                fields: None,
                properties: RegisterProperties::empty(),
                datatype: None,
                modified_write_values: None,
                write_constraint: None,
                ..h
            }
        } else {
            RegisterInfo {
                properties: h.properties.modified(b.properties),
                datatype: if b.datatype is Some { b.datatype } else { h.datatype },
                modified_write_values: if b.modified_write_values is Some {
                    b.modified_write_values
                } else {
                    h.modified_write_values
                },
                write_constraint: if b.write_constraint is Some { b.write_constraint } else { h.write_constraint },
                read_action: if b.read_action is Some { b.read_action } else { h.read_action },
                fields: if b.fields is Some { nonempty_list(b.fields) } else { h.fields },
                ..h
            }
        }
    }

    /// Make a builder for [`RegisterInfo`]
    pub fn builder() -> (r: RegisterInfoBuilder)
        ensures
            r == RegisterInfoBuilder::empty(),
    {
        RegisterInfoBuilder::default()
    }

    /// Construct single [`Register`]
    pub fn single(self) -> (r: Register)
        ensures
            r == Register::Single(self),
    {
        Register::Single(self)
    }

    /// Construct [`Register`] array
    pub fn array(self, dim: DimElement) -> (r: Register)
        ensures
            r == Register::Array(self, dim),
    {
        Register::Array(self, dim)
    }

    /// Construct single [`Register`] or array
    pub fn maybe_array(self, dim: Option<DimElement>) -> (r: Register)
        ensures
            r == (match dim {
                Some(d) => Register::Array(self, d),
                None => Register::Single(self),
            }),
    {
        match dim {
            Some(d) => self.array(d),
            None => self.single(),
        }
    }

    /// Modify an existing [`RegisterInfo`] based on a [builder](RegisterInfoBuilder).
    /// When the properties of a builder that derives from nothing are
    /// refused, the modification stops after them with that error.
    pub fn modify_from(&mut self, builder: RegisterInfoBuilder, lvl: ValidateLevel) -> (r: Result<(), SvdError>)
        ensures
            ({
                let h = old(self).modified_head(builder);
                let pr = properties_outcome(h.properties.modified(builder.properties), lvl);
                if builder.derived_from is None && pr is Err {
                    &&& r == pr
                    &&& *final(self) == RegisterInfo {
                        properties: h.properties.modified(builder.properties),
                        ..h
                    }
                } else {
                    &&& *final(self) == old(self).modified(builder)
                    &&& final(self).validate_spec(lvl, r)
                }
            }),
    {
        if let Some(name) = builder.name {
            self.name = name;
        }
        if builder.display_name.is_some() {
            self.display_name = empty_to_none(builder.display_name);
        }
        if builder.description.is_some() {
            self.description = empty_to_none(builder.description);
        }
        if builder.alternate_group.is_some() {
            self.alternate_group = empty_to_none(builder.alternate_group);
        }
        if builder.alternate_register.is_some() {
            self.alternate_register = empty_to_none(builder.alternate_register);
        }
        if let Some(address_offset) = builder.address_offset {
            self.address_offset = address_offset;
        }
        if builder.derived_from.is_some() {
            self.derived_from = builder.derived_from;
            self.fields = None;
            self.properties = RegisterProperties::new();
            self.datatype = None;
            self.modified_write_values = None;
            self.write_constraint = None;
        } else {
            match self.properties.modify_from(builder.properties, lvl) {
                Ok(()) => {},
                Err(e) => return Err(e),
            }
            if builder.datatype.is_some() {
                self.datatype = builder.datatype;
            }
            if builder.modified_write_values.is_some() {
                self.modified_write_values = builder.modified_write_values;
            }
            if builder.write_constraint.is_some() {
                self.write_constraint = builder.write_constraint;
            }
            if builder.read_action.is_some() {
                self.read_action = builder.read_action;
            }
            if builder.fields.is_some() {
                self.fields = empty_vec_to_none(builder.fields);
            }
        }
        self.validate(lvl)
    }

    /// Validate the [`RegisterInfo`]
    pub fn validate(&self, lvl: ValidateLevel) -> (r: Result<(), SvdError>)
        ensures
            self.validate_spec(lvl, r),
    {
        if lvl.is_disabled() {
            return Ok(());
        }
        if lvl.is_strict() {
            match check_dimable_name(self.name.as_str(), "name") {
                Ok(()) => {},
                Err(e) => return Err(SvdError::Name(e)),
            }
            if let Some(name) = &self.alternate_group {
                match check_name(name.as_str(), "alternateGroup") {
                    Ok(()) => {},
                    Err(e) => return Err(SvdError::Name(e)),
                }
            }
            if let Some(name) = &self.alternate_register {
                match check_dimable_name(name.as_str(), "alternateRegister") {
                    Ok(()) => {},
                    Err(e) => return Err(SvdError::Name(e)),
                }
            }
        }
        if let Some(name) = &self.derived_from {
            if lvl.is_strict() {
                match check_derived_name(name.as_str(), "derivedFrom") {
                    Ok(()) => {},
                    Err(e) => return Err(SvdError::Name(e)),
                }
            }
        } else if let Some(fields) = &self.fields {
            if fields.len() == 0 && lvl.is_strict() {
                return Err(SvdError::Register(Error::EmptyFields));
            }
        }
        Ok(())
    }

    /// Validate the [`RegisterInfo`] recursively
    pub fn validate_all(&self, lvl: ValidateLevel) -> (r: Result<(), SvdError>)
        ensures
            self.validate_all_spec(lvl, r),
    {
        match self.properties.check(lvl) {
            Ok(()) => {},
            Err(e) => return Err(e),
        }
        let fs = self.fields();
        let mut i: usize = 0;
        while i < fs.len()
            invariant
                fs@ == fields_of(self.fields),
                self.properties.validate_spec(lvl) is Ok,
                i <= fs@.len(),
                forall|j: int| 0 <= j < i ==> field_ok(fs@[j], lvl),
            decreases fs@.len() - i,
        {
            match fs[i].validate_all(lvl) {
                Ok(()) => {},
                Err(e) => {
                    assert(!field_ok(fs@[i as int], lvl));
                    return Err(e);
                },
            }
            i += 1;
        }
        self.validate(lvl)
    }

    /// Returns the child fields
    pub fn fields(&self) -> (r: &[Field])
        ensures
            r@ == fields_of(self.fields),
    {
        match &self.fields {
            Some(fields) => fields.as_slice(),
            None => &[],
        }
    }

    /// Get field by name: the first with that name.
    pub fn get_field(&self, name: &str) -> (r: Option<&Field>)
        ensures
            match r {
                Some(f) => exists|i: int|
                    0 <= i < fields_of(self.fields).len() && fields_of(self.fields)[i] == *f
                        && f.info_spec().name@ == name@ && forall|j: int|
                        0 <= j < i ==> fields_of(self.fields)[j].info_spec().name@ != name@,
                None => forall|i: int|
                    0 <= i < fields_of(self.fields).len() ==> fields_of(self.fields)[i].info_spec().name@ != name@,
            },
    {
        let fs = self.fields();
        let mut i: usize = 0;
        while i < fs.len()
            invariant
                fs@ == fields_of(self.fields),
                i <= fs@.len(),
                forall|j: int| 0 <= j < i ==> fs@[j].info_spec().name@ != name@,
            decreases fs@.len() - i,
        {
            if str_eq(fs[i].info().name.as_str(), name) {
                return Some(&fs[i]);
            }
            i += 1;
        }
        None
    }

    /// Get mutable field by name: the first with that name.
    pub fn get_mut_field(&mut self, name: &str) -> (r: Option<&mut Field>)
        ensures
            match r {
                Some(f) => exists|i: int|
                    0 <= i < fields_of(old(self).fields).len() && fields_of(old(self).fields)[i] == *f
                        && f.info_spec().name@ == name@ && (forall|j: int|
                        0 <= j < i ==> fields_of(old(self).fields)[j].info_spec().name@ != name@)
                        && fields_of(final(self).fields) == fields_of(old(self).fields).update(i, *final(f))
                        && final(self).fields is Some
                        && *final(self) == RegisterInfo { fields: final(self).fields, ..*old(self) },
                None => *final(self) == *old(self) && forall|i: int|
                    0 <= i < fields_of(old(self).fields).len() ==> fields_of(old(self).fields)[i].info_spec().name@
                        != name@,
            },
    {
        let mut found: Option<usize> = None;
        {
            let fs = self.fields();
            let mut i: usize = 0;
            while i < fs.len()
                invariant_except_break
                    found is None,
                invariant
                    fs@ == fields_of(self.fields),
                    i <= fs@.len(),
                    forall|j: int| 0 <= j < i ==> fs@[j].info_spec().name@ != name@,
                ensures
                    match found {
                        Some(k) => k < fs@.len() && fs@[k as int].info_spec().name@ == name@ && forall|j: int|
                            0 <= j < k ==> fs@[j].info_spec().name@ != name@,
                        None => forall|j: int| 0 <= j < fs@.len() ==> fs@[j].info_spec().name@ != name@,
                    },
                decreases fs@.len() - i,
            {
                if str_eq(fs[i].info().name.as_str(), name) {
                    found = Some(i);
                    break;
                }
                i += 1;
            }
        }
        match found {
            Some(k) => match &mut self.fields {
                Some(v) => {
                    let f = &mut v[k];
                    Some(f)
                },
                None => None,
            },
            None => None,
        }
    }
}

impl Register {
    /// Validate the [`Register`] recursively
    pub fn validate_all(&self, lvl: ValidateLevel) -> (r: Result<(), SvdError>)
        ensures
            self.info_spec().validate_all_spec(lvl, r),
    {
        if let Register::Array(_, dim) = self {
            match dim.validate(lvl) {
                Ok(()) => {},
                Err(e) => return Err(e),
            }
        }
        self.info().validate_all(lvl)
    }
}

impl Name for RegisterInfo {
    open spec fn name_spec(&self) -> Seq<char> {
        self.name@
    }

    fn name(&self) -> (r: &str) {
        self.name.as_str()
    }
}

impl Description for RegisterInfo {
    open spec fn description_spec(&self) -> Option<Seq<char>> {
        opt_chars(self.description)
    }

    fn description(&self) -> (r: Option<&str>) {
        match &self.description {
            Some(d) => Some(d.as_str()),
            None => None,
        }
    }
}

} // verus!
