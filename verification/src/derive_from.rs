//! Implementations of DeriveFrom, setting non-explicit fields.
use vstd::prelude::*;

use crate::enumeratedvalues::EnumeratedValuesModel;
use crate::field::{clone_opt, FieldInfoModel};
use crate::copying::{
    copy_dim, copy_elements, copy_fields, copy_registers, dim_same, elements_same, fields_same, registers_same,
};
use crate::{
    Cluster, ClusterInfo, EnumeratedValues, Field, FieldInfo, Peripheral, PeripheralInfo, Register,
    RegisterInfo, RegisterProperties,
};

verus! {

/// Fill empty fields of structure with values of other structure
pub trait DeriveFrom: Sized {
    /// Derive contents
    fn derive_from(&self, other: &Self) -> Self;
}

/// `a`, else `b`.
pub open spec fn or_else<T>(a: Option<T>, b: Option<T>) -> Option<T> {
    if a is Some {
        a
    } else {
        b
    }
}

/// The first of two optional values that is set.
fn first_of<T: Copy>(a: Option<T>, b: Option<T>) -> (r: Option<T>)
    ensures
        r == or_else(a, b),
{
    match a {
        Some(x) => Some(x),
        None => b,
    }
}

/// The first of two optional texts that is set, copied.
fn first_text(a: &Option<String>, b: &Option<String>) -> (r: Option<String>)
    ensures
        r == or_else(*a, *b),
{
    match a {
        Some(_) => clone_opt(a),
        None => clone_opt(b),
    }
}

impl RegisterProperties {
    /// The properties that [`DeriveFrom::derive_from`] gives: each value
    /// that `self` does not set is taken from `other`.
    pub open spec fn derived_from_spec(self, other: RegisterProperties) -> RegisterProperties {
        RegisterProperties {
            size: or_else(self.size, other.size),
            reset_value: or_else(self.reset_value, other.reset_value),
            reset_mask: or_else(self.reset_mask, other.reset_mask),
            access: or_else(self.access, other.access),
            protection: or_else(self.protection, other.protection),
        }
    }
}

impl DeriveFrom for RegisterProperties {
    fn derive_from(&self, other: &Self) -> (r: Self)
        ensures
            r == self.derived_from_spec(*other),
    {
        RegisterProperties {
            size: first_of(self.size, other.size),
            reset_value: first_of(self.reset_value, other.reset_value),
            reset_mask: first_of(self.reset_mask, other.reset_mask),
            access: first_of(self.access, other.access),
            protection: first_of(self.protection, other.protection),
        }
    }
}

impl DeriveFrom for EnumeratedValues {
    fn derive_from(&self, other: &Self) -> (r: Self)
        ensures
            r@ == (EnumeratedValuesModel {
                usage: or_else(self.usage, other.usage),
                values: if self.values@.len() == 0 { other.values@ } else { self.values@ },
                ..self@
            }),
    {
        let mut derived = self.clone();
        derived.usage = first_of(self.usage, other.usage);
        if derived.values.len() == 0 {
            derived.values = crate::enumeratedvalues::clone_values(&other.values);
        }
        derived
    }
}

/// The contents of field `a` derived from field `b`: its unset
/// description, access, write constraint and modified write values, and its
/// enumerated values where it has none, are taken from `b`.
pub open spec fn field_derived(a: FieldInfo, b: FieldInfo) -> FieldInfoModel {
    FieldInfoModel {
        description: or_else(a@.description, b@.description),
        access: or_else(a.access, b.access),
        enumerated_values: if a.enumerated_values@.len() == 0 {
            b@.enumerated_values
        } else {
            a@.enumerated_values
        },
        write_constraint: or_else(a.write_constraint, b.write_constraint),
        modified_write_values: or_else(a.modified_write_values, b.modified_write_values),
        ..a@
    }
}

impl DeriveFrom for FieldInfo {
    fn derive_from(&self, other: &Self) -> (r: Self)
        ensures
            r@ == field_derived(*self, *other),
    {
        let mut derived = self.clone();
        derived.description = first_text(&self.description, &other.description);
        derived.access = first_of(self.access, other.access);
        if derived.enumerated_values.len() == 0 {
            derived.enumerated_values = crate::enumeratedvalues::clone_enumerations(&other.enumerated_values);
            assert(derived@.enumerated_values =~= other@.enumerated_values);
        }
        derived.write_constraint = first_of(self.write_constraint, other.write_constraint);
        derived.modified_write_values = first_of(self.modified_write_values, other.modified_write_values);
        assert(derived@.description == or_else(self@.description, other@.description));
        assert(derived@.enumerated_values =~= if self.enumerated_values@.len() == 0 {
            other@.enumerated_values
        } else {
            self@.enumerated_values
        });
        derived
    }
}

/// `r` is register `a` derived from register `b`: its unset description,
/// write constraint and modified write values are taken from `b`, its
/// properties are derived from those of `b`, and without fields it has
/// those of `b`.
pub open spec fn register_derived(a: RegisterInfo, b: RegisterInfo, r: RegisterInfo) -> bool {
    &&& fields_same(if a.fields is Some { a.fields } else { b.fields }, r.fields)
    &&& r == (RegisterInfo {
        description: or_else(a.description, b.description),
        properties: a.properties.derived_from_spec(b.properties),
        fields: r.fields,
        write_constraint: or_else(a.write_constraint, b.write_constraint),
        modified_write_values: or_else(a.modified_write_values, b.modified_write_values),
        ..a
    })
}

impl DeriveFrom for RegisterInfo {
    fn derive_from(&self, other: &Self) -> (r: Self)
        ensures
            register_derived(*self, *other, r),
    {
        let mut derived = self.clone();
        derived.description = first_text(&self.description, &other.description);
        derived.properties = self.properties.derive_from(&other.properties);
        derived.fields = if self.fields.is_some() {
            copy_fields(&self.fields)
        } else {
            copy_fields(&other.fields)
        };
        derived.write_constraint = first_of(self.write_constraint, other.write_constraint);
        derived.modified_write_values = first_of(self.modified_write_values, other.modified_write_values);
        derived
    }
}

/// `r` is cluster `a` derived from cluster `b`: its default properties are
/// derived from those of `b`, its unset header name is taken from `b`, and
/// without children it has those of `b`.
pub open spec fn cluster_derived(a: ClusterInfo, b: ClusterInfo, r: ClusterInfo) -> bool {
    &&& a.children@.len() == 0 ==> elements_same(b.children@, r.children@)
    &&& a.children@.len() != 0 ==> elements_same(a.children@, r.children@)
    &&& r == (ClusterInfo {
        default_register_properties: a.default_register_properties.derived_from_spec(b.default_register_properties),
        header_struct_name: or_else(a.header_struct_name, b.header_struct_name),
        children: r.children,
        ..a
    })
}

impl DeriveFrom for ClusterInfo {
    fn derive_from(&self, other: &Self) -> (r: Self)
        ensures
            cluster_derived(*self, *other, r),
    {
        let mut derived = self.clone();
        derived.default_register_properties = self.default_register_properties.derive_from(
            &other.default_register_properties,
        );
        derived.header_struct_name = first_text(&self.header_struct_name, &other.header_struct_name);
        derived.children = if self.children.len() == 0 {
            copy_elements(&other.children)
        } else {
            copy_elements(&self.children)
        };
        derived
    }
}

/// `r` is peripheral `a` derived from peripheral `b`: its unset group name
/// and description are taken from `b`, its default properties are derived
/// from those of `b`, without registers it has those of `b`, and without
/// interrupts it has those of `b`; everything else is its own.
pub open spec fn peripheral_derived(a: PeripheralInfo, b: PeripheralInfo, r: PeripheralInfo) -> bool {
    &&& registers_same(if a.registers is Some { a.registers } else { b.registers }, r.registers)
    &&& r.interrupt@ == if a.interrupt@.len() == 0 { b.interrupt@ } else { a.interrupt@ }
    &&& crate::peripheral::opt_view(r.address_block) == crate::peripheral::opt_view(a.address_block)
    &&& r == (PeripheralInfo {
        group_name: or_else(a.group_name, b.group_name),
        description: or_else(a.description, b.description),
        default_register_properties: a.default_register_properties.derived_from_spec(b.default_register_properties),
        registers: r.registers,
        interrupt: r.interrupt,
        address_block: r.address_block,
        ..a
    })
}

impl DeriveFrom for PeripheralInfo {
    fn derive_from(&self, other: &Self) -> (r: Self)
        ensures
            peripheral_derived(*self, *other, r),
    {
        let mut derived = self.clone();
        derived.group_name = first_text(&self.group_name, &other.group_name);
        derived.description = first_text(&self.description, &other.description);
        derived.default_register_properties = self.default_register_properties.derive_from(
            &other.default_register_properties,
        );
        derived.registers = if self.registers.is_some() {
            copy_registers(&self.registers)
        } else {
            copy_registers(&other.registers)
        };
        if derived.interrupt.len() == 0 {
            derived.interrupt = crate::peripheral::clone_interrupts(&other.interrupt);
        }
        derived
    }
}

impl DeriveFrom for Field {
    fn derive_from(&self, other: &Self) -> (r: Self)
        ensures
            (r is Single) == (self is Single),
            self matches Field::Array(_, d) ==> (r matches Field::Array(_, e) && dim_same(*d, e)),
            r.info_spec()@ == field_derived(self.info_spec(), other.info_spec()),
    {
        match self {
            Field::Single(info) => Field::Single(info.derive_from(other.info())),
            Field::Array(info, dim) => Field::Array(info.derive_from(other.info()), copy_dim(dim)),
        }
    }
}

impl DeriveFrom for Register {
    fn derive_from(&self, other: &Self) -> (r: Self)
        ensures
            (r is Single) == (self is Single),
            self matches Register::Array(_, d) ==> (r matches Register::Array(_, e) && dim_same(*d, e)),
            register_derived(self.info_spec(), other.info_spec(), r.info_spec()),
    {
        match self {
            Register::Single(info) => Register::Single(info.derive_from(other.info())),
            Register::Array(info, dim) => Register::Array(info.derive_from(other.info()), copy_dim(dim)),
        }
    }
}

impl DeriveFrom for Cluster {
    fn derive_from(&self, other: &Self) -> (r: Self)
        ensures
            (r is Single) == (self is Single),
            self matches Cluster::Array(_, d) ==> (r matches Cluster::Array(_, e) && dim_same(*d, e)),
            cluster_derived(self.info_spec(), other.info_spec(), r.info_spec()),
    {
        match self {
            Cluster::Single(info) => Cluster::Single(info.derive_from(other.info())),
            Cluster::Array(info, dim) => Cluster::Array(info.derive_from(other.info()), copy_dim(dim)),
        }
    }
}

impl DeriveFrom for Peripheral {
    fn derive_from(&self, other: &Self) -> (r: Self)
        ensures
            (r is Single) == (self is Single),
            self matches Peripheral::Array(_, d) ==> (r matches Peripheral::Array(_, e) && dim_same(*d, e)),
            peripheral_derived(self.info_spec(), other.info_spec(), r.info_spec()),
    {
        match self {
            Peripheral::Single(info) => Peripheral::Single(info.derive_from(other.info())),
            Peripheral::Array(info, dim) => Peripheral::Array(info.derive_from(other.info()), copy_dim(dim)),
        }
    }
}

/// Deriving a peripheral fills what it leaves unset from the other: its
/// description, group name, registers and interrupts come from the other
/// where it has none, and stay its own where it has some; its name, base
/// address and reference are its own.
pub proof fn lemma_derived_peripheral_fills(a: Peripheral, b: Peripheral, r: Peripheral)
    requires
        peripheral_derived(a.info_spec(), b.info_spec(), r.info_spec()),
    ensures
        r.info_spec().name == a.info_spec().name,
        r.info_spec().base_address == a.info_spec().base_address,
        r.info_spec().derived_from == a.info_spec().derived_from,
        a.info_spec().description is None ==> r.info_spec().description == b.info_spec().description,
        a.info_spec().description is Some ==> r.info_spec().description == a.info_spec().description,
        a.info_spec().group_name is None ==> r.info_spec().group_name == b.info_spec().group_name,
        a.info_spec().group_name is Some ==> r.info_spec().group_name == a.info_spec().group_name,
        a.info_spec().registers is None ==> registers_same(b.info_spec().registers, r.info_spec().registers),
        a.info_spec().registers is Some ==> registers_same(a.info_spec().registers, r.info_spec().registers),
        a.info_spec().interrupt@.len() == 0 ==> r.info_spec().interrupt@ == b.info_spec().interrupt@,
        a.info_spec().interrupt@.len() > 0 ==> r.info_spec().interrupt@ == a.info_spec().interrupt@,
{
}

/// Deriving a register fills what it leaves unset from the other: its
/// description and fields come from the other where it has none, and stay
/// its own where it has some; its name and address offset are its own.
pub proof fn lemma_derived_register_fills(a: Register, b: Register, r: Register)
    requires
        register_derived(a.info_spec(), b.info_spec(), r.info_spec()),
    ensures
        r.info_spec().name == a.info_spec().name,
        r.info_spec().address_offset == a.info_spec().address_offset,
        a.info_spec().description is None ==> r.info_spec().description == b.info_spec().description,
        a.info_spec().description is Some ==> r.info_spec().description == a.info_spec().description,
        a.info_spec().fields is None ==> fields_same(b.info_spec().fields, r.info_spec().fields),
        a.info_spec().fields is Some ==> fields_same(a.info_spec().fields, r.info_spec().fields),
{
}

/// Deriving a cluster fills what it leaves unset from the other: its
/// header name and children come from the other where it has none; its
/// name and address offset are its own.
pub proof fn lemma_derived_cluster_fills(a: Cluster, b: Cluster, r: Cluster)
    requires
        cluster_derived(a.info_spec(), b.info_spec(), r.info_spec()),
    ensures
        r.info_spec().name == a.info_spec().name,
        r.info_spec().address_offset == a.info_spec().address_offset,
        a.info_spec().header_struct_name is None ==> r.info_spec().header_struct_name == b.info_spec().header_struct_name,
        a.info_spec().header_struct_name is Some ==> r.info_spec().header_struct_name == a.info_spec().header_struct_name,
        a.info_spec().children@.len() == 0 ==> elements_same(b.info_spec().children@, r.info_spec().children@),
        a.info_spec().children@.len() != 0 ==> elements_same(a.info_spec().children@, r.info_spec().children@),
{
}

/// Deriving a field fills what it leaves unset from the other: its
/// description, access and enumerated values come from the other where it
/// has none, and stay its own where it has some; its name and bits are its
/// own.
pub proof fn lemma_derived_field_fills(a: Field, b: Field, f: Field)
    requires
        f.info_spec()@ == field_derived(a.info_spec(), b.info_spec()),
    ensures
        f.info_spec()@.name == a.info_spec()@.name,
        f.info_spec()@.bit_range == a.info_spec()@.bit_range,
        a.info_spec()@.description is None ==> f.info_spec()@.description == b.info_spec()@.description,
        a.info_spec()@.description is Some ==> f.info_spec()@.description == a.info_spec()@.description,
        a.info_spec().access is None ==> f.info_spec()@.access == b.info_spec().access,
        a.info_spec().access is Some ==> f.info_spec()@.access == a.info_spec().access,
        a.info_spec().enumerated_values@.len() == 0 ==> f.info_spec()@.enumerated_values == b.info_spec()@.enumerated_values,
        a.info_spec().enumerated_values@.len() != 0 ==> f.info_spec()@.enumerated_values == a.info_spec()@.enumerated_values,
{
}

/// Deriving properties from themselves changes nothing; deriving from
/// properties that set nothing changes nothing; and deriving twice from the
/// same properties is deriving once.
pub proof fn lemma_derive_properties(p: RegisterProperties, q: RegisterProperties)
    ensures
        p.derived_from_spec(p) == p,
        p.derived_from_spec(RegisterProperties::empty()) == p,
        p.derived_from_spec(q).derived_from_spec(q) == p.derived_from_spec(q),
        p.size is Some ==> p.derived_from_spec(q).size == p.size,
        p.size is None ==> p.derived_from_spec(q).size == q.size,
{
}

} // verus!
