use vstd::prelude::*;

use crate::array::{descriptions, expand_name, expand_text, names};
use crate::cluster::{
    cluster_named, find_cluster, find_register, first_cluster_named, first_register_named, rc_validate_all,
    register_named,
};
use crate::dimelement::{indexes_cover, indexes_spec};
use crate::field::{clone_opt, opt_chars};
use crate::register::properties_outcome;
use crate::registercluster::{
    child_clusters, child_registers, clusters_of, collect_registers, registers_of, seq_registers,
};
use crate::text::{owned, str_eq, strings_view};
use crate::{
    check_dimable_name, dimable_name, empty_to_none, empty_vec_to_none, is_uninit, name_error,
    nonempty_list, nonempty_text, outcome, AddressBlock, BuildError, Cluster, Description, DimElement,
    Interrupt, MaybeArray, Name, Register, RegisterCluster, RegisterProperties, SvdError, ValidateLevel,
};

verus! {

/// A single peripheral or array of peripherals
pub type Peripheral = MaybeArray<PeripheralInfo>;

/// Errors from [Peripheral::validate]
#[derive(Clone, Copy, Debug, PartialEq, Eq, Structural)]
pub enum Error {
    /// The peripheral has no registers, but specified a `<registers>` tag.
    EmptyRegisters,
}

/// A description of a peripheral in the [device](crate::Device), describing, for example, the [memory mappings](crate::RegisterInfo).
#[derive(Debug)]
pub struct PeripheralInfo {
    /// The string identifies the peripheral. Peripheral names are required to be unique for a device
    pub name: String,
    /// Specifies a register name without the restrictions of an ANSI C identifier.
    pub display_name: Option<String>,
    /// The string specifies the version of this peripheral description
    pub version: Option<String>,
    /// The string provides an overview of the purpose and functionality of the peripheral
    pub description: Option<String>,
    /// Specifies peripheral assigned to the same address blocks
    pub alternate_peripheral: Option<String>,
    /// Assigns this peripheral to a group of peripherals. This is only used by the System View
    pub group_name: Option<String>,
    /// Define a string as prefix. All register names of this peripheral get this prefix
    pub prepend_to_name: Option<String>,
    /// Define a string as suffix. All register names of this peripheral get this suffix
    pub append_to_name: Option<String>,
    /// Specify the struct type name created in the device header file
    pub header_struct_name: Option<String>,
    /// Lowest address reserved or used by the peripheral
    pub base_address: u64,
    /// Default properties for all registers
    pub default_register_properties: RegisterProperties,
    /// Specify an address range uniquely mapped to this peripheral
    pub address_block: Option<Vec<AddressBlock>>,
    /// A peripheral can have multiple associated interrupts
    pub interrupt: Vec<Interrupt>,
    /// Group to enclose register definitions.
    /// `None` indicates that the `<registers>` node is not present
    pub registers: Option<Vec<RegisterCluster>>,
    /// Specify the peripheral name from which to inherit data. Elements specified subsequently override inherited values
    pub derived_from: Option<String>,
}

/// The contents of an optional list.
pub open spec fn opt_view<T>(o: Option<Vec<T>>) -> Option<Seq<T>> {
    match o {
        Some(v) => Some(v@),
        None => None,
    }
}

/// `b` holds clones of the elements of `a`, one for one.
pub open spec fn registers_cloned(a: Option<Vec<RegisterCluster>>, b: Option<Vec<RegisterCluster>>) -> bool {
    match (a, b) {
        (Some(x), Some(y)) => x@.len() == y@.len() && forall|i: int|
            0 <= i < x@.len() ==> cloned::<RegisterCluster>(x@[i], #[trigger] y@[i]),
        (None, None) => true,
        _ => false,
    }
}

/// A copy of an optional list of registers and clusters.
pub fn clone_registers(o: &Option<Vec<RegisterCluster>>) -> (r: Option<Vec<RegisterCluster>>)
    ensures
        registers_cloned(*o, r),
{
    match o {
        Some(v) => Some(v.clone()),
        None => None,
    }
}

/// A copy of an optional list of address blocks.
pub fn clone_blocks(o: &Option<Vec<AddressBlock>>) -> (r: Option<Vec<AddressBlock>>)
    ensures
        opt_view(r) == opt_view(*o),
{
    match o {
        Some(v) => {
            let c = v.clone();
            assert(c@ =~= v@);
            Some(c)
        },
        None => None,
    }
}

/// A copy of a list of interrupts.
pub fn clone_interrupts(v: &Vec<Interrupt>) -> (r: Vec<Interrupt>)
    ensures
        r@ == v@,
{
    let c = v.clone();
    assert(c@ =~= v@);
    c
}

impl PeripheralInfo {
    /// `other` is `self` with its registers cloned and its lists copied.
    pub open spec fn copied_as(self, other: PeripheralInfo) -> bool {
        &&& registers_cloned(self.registers, other.registers)
        &&& opt_view(other.address_block) == opt_view(self.address_block)
        &&& other.interrupt@ == self.interrupt@
        &&& other == PeripheralInfo {
            registers: other.registers,
            address_block: other.address_block,
            interrupt: other.interrupt,
            ..self
        }
    }
}

impl Clone for PeripheralInfo {
    fn clone(&self) -> (r: Self)
        ensures
            self.copied_as(r),
    {
        PeripheralInfo {
            name: self.name.clone(),
            display_name: clone_opt(&self.display_name),
            version: clone_opt(&self.version),
            description: clone_opt(&self.description),
            alternate_peripheral: clone_opt(&self.alternate_peripheral),
            group_name: clone_opt(&self.group_name),
            prepend_to_name: clone_opt(&self.prepend_to_name),
            append_to_name: clone_opt(&self.append_to_name),
            header_struct_name: clone_opt(&self.header_struct_name),
            base_address: self.base_address,
            default_register_properties: self.default_register_properties,
            address_block: clone_blocks(&self.address_block),
            interrupt: clone_interrupts(&self.interrupt),
            registers: clone_registers(&self.registers),
            derived_from: clone_opt(&self.derived_from),
        }
    }
}

/// Return the base addresses of each peripheral in an array
pub fn base_addresses(info: &PeripheralInfo, dim: &DimElement) -> (r: Vec<u64>)
    requires
        dim.dim == 0 || info.base_address + (dim.dim - 1) * dim.dim_increment <= u64::MAX,
    ensures
        r@ == Seq::new(dim.dim as nat, |i: int| (info.base_address + i * dim.dim_increment) as u64),
{
    let mut out: Vec<u64> = Vec::new();
    let mut i: u32 = 0;
    while i < dim.dim
        invariant
            i <= dim.dim,
            dim.dim == 0 || info.base_address + (dim.dim - 1) * dim.dim_increment <= u64::MAX,
            out@ =~= Seq::new(i as nat, |k: int| (info.base_address + k * dim.dim_increment) as u64),
        decreases dim.dim - i,
    {
        assert(i * dim.dim_increment <= (dim.dim - 1) * dim.dim_increment) by (nonlinear_arith)
            requires
                i <= dim.dim - 1,
        ;
        assert(i as u64 * dim.dim_increment as u64 == i * dim.dim_increment) by (nonlinear_arith);
        out.push(info.base_address + (i as u64) * (dim.dim_increment as u64));
        i += 1;
    }
    out
}

/// The peripheral of an array with index text `idx`: named and described
/// after the index, placed at `address`; the display name is expanded too.
pub open spec fn peripheral_element(info: PeripheralInfo, p: PeripheralInfo, idx: Seq<char>, address: u64) -> bool {
    &&& p.name@ == expand_name(info.name@, idx)
    &&& opt_chars(p.description) == match info.description {
        Some(d) => Some(expand_name(d@, idx)),
        None => None,
    }
    &&& opt_chars(p.display_name) == match info.display_name {
        Some(d) => Some(expand_name(d@, idx)),
        None => None,
    }
    &&& p.base_address == address
    &&& registers_cloned(info.registers, p.registers)
    &&& opt_view(p.address_block) == opt_view(info.address_block)
    &&& p.interrupt@ == info.interrupt@
    &&& p == PeripheralInfo {
        name: p.name,
        description: p.description,
        display_name: p.display_name,
        base_address: p.base_address,
        registers: p.registers,
        address_block: p.address_block,
        interrupt: p.interrupt,
        ..info
    }
}

/// Extract `PeripheralInfo` items from array
pub fn expand(info: &PeripheralInfo, dim: &DimElement) -> (r: Vec<PeripheralInfo>)
    requires
        indexes_cover(dim@),
        dim.dim == 0 || info.base_address + (dim.dim - 1) * dim.dim_increment <= u64::MAX,
    ensures
        r@.len() == dim.dim,
        forall|i: int|
            0 <= i < dim.dim ==> peripheral_element(
                *info,
                #[trigger] r@[i],
                indexes_spec(dim@)[i],
                (info.base_address + i * dim.dim_increment) as u64,
            ),
{
    let idx = dim.indexes();
    let ns = names(info.name.as_str(), dim);
    let ds = descriptions(
        match &info.description {
            Some(d) => Some(d.as_str()),
            None => None,
        },
        dim,
    );
    let addrs = base_addresses(info, dim);
    let mut out: Vec<PeripheralInfo> = Vec::new();
    let mut i: usize = 0;
    assert(strings_view(ns@).len() == ns@.len());
    assert(strings_view(idx@).len() == idx@.len());
    while i < ns.len()
        invariant
            i <= ns@.len(),
            ns@.len() == dim.dim,
            idx@.len() == dim.dim,
            ds@.len() == dim.dim,
            addrs@.len() == dim.dim,
            strings_view(idx@) == indexes_spec(dim@),
            strings_view(ns@) == Seq::new(
                dim.dim as nat,
                |k: int| expand_name(info.name@, indexes_spec(dim@)[k]),
            ),
            forall|k: int|
                0 <= k < dim.dim ==> match info.description {
                    Some(d) => (#[trigger] ds@[k]) matches Some(s) && s@ == expand_name(
                        d@,
                        indexes_spec(dim@)[k],
                    ),
                    None => ds@[k] is None,
                },
            addrs@ == Seq::new(dim.dim as nat, |k: int| (info.base_address + k * dim.dim_increment) as u64),
            out@.len() == i,
            forall|k: int|
                0 <= k < i ==> peripheral_element(
                    *info,
                    #[trigger] out@[k],
                    indexes_spec(dim@)[k],
                    (info.base_address + k * dim.dim_increment) as u64,
                ),
        decreases ns@.len() - i,
    {
        let mut p = info.clone();
        p.name = ns[i].clone();
        p.description = clone_opt(&ds[i]);
        p.base_address = addrs[i];
        p.display_name = match &info.display_name {
            Some(d) => Some(expand_text(d.as_str(), idx[i].as_str())),
            None => None,
        };
        assert(strings_view(ns@)[i as int] == ns@[i as int]@);
        assert(strings_view(idx@)[i as int] == idx@[i as int]@);
        out.push(p);
        i += 1;
    }
    out
}

/// Builder for [`Peripheral`]
#[derive(Debug)]
pub struct PeripheralInfoBuilder {
    /// The name, if set.
    pub name: Option<String>,
    /// The display name, if set.
    pub display_name: Option<String>,
    /// The version, if set.
    pub version: Option<String>,
    /// The description, if set.
    pub description: Option<String>,
    /// The alternate peripheral, if set.
    pub alternate_peripheral: Option<String>,
    /// The group name, if set.
    pub group_name: Option<String>,
    /// The prefix of register names, if set.
    pub prepend_to_name: Option<String>,
    /// The suffix of register names, if set.
    pub append_to_name: Option<String>,
    /// The header struct name, if set.
    pub header_struct_name: Option<String>,
    /// The base address, if set.
    pub base_address: Option<u64>,
    /// The default register properties.
    pub default_register_properties: RegisterProperties,
    /// The address blocks, if set.
    pub address_block: Option<Vec<AddressBlock>>,
    /// The interrupts, if set.
    pub interrupt: Option<Vec<Interrupt>>,
    /// The registers and clusters, if set.
    pub registers: Option<Vec<RegisterCluster>>,
    /// The element this one derives from, if set.
    pub derived_from: Option<String>,
}

impl Default for PeripheralInfoBuilder {
    fn default() -> (r: Self)
        ensures
            r == PeripheralInfoBuilder::empty(),
    {
        PeripheralInfoBuilder {
            name: None,
            display_name: None,
            version: None,
            description: None,
            alternate_peripheral: None,
            group_name: None,
            prepend_to_name: None,
            append_to_name: None,
            header_struct_name: None,
            base_address: None,
            default_register_properties: RegisterProperties::new(),
            address_block: None,
            interrupt: None,
            registers: None,
            derived_from: None,
        }
    }
}

impl From<PeripheralInfo> for PeripheralInfoBuilder {
    fn from(p: PeripheralInfo) -> (r: Self)
        ensures
            r == Self::from_info(p),
    {
        PeripheralInfoBuilder {
            name: Some(p.name),
            display_name: p.display_name,
            version: p.version,
            description: p.description,
            alternate_peripheral: p.alternate_peripheral,
            group_name: p.group_name,
            prepend_to_name: p.prepend_to_name,
            append_to_name: p.append_to_name,
            header_struct_name: p.header_struct_name,
            base_address: Some(p.base_address),
            default_register_properties: p.default_register_properties,
            address_block: p.address_block,
            interrupt: Some(p.interrupt),
            registers: p.registers,
            derived_from: p.derived_from,
        }
    }
}

impl vstd::std_specs::convert::FromSpecImpl<PeripheralInfo> for PeripheralInfoBuilder {
    open spec fn obeys_from_spec() -> bool {
        true
    }

    open spec fn from_spec(p: PeripheralInfo) -> Self {
        Self::from_info(p)
    }
}

impl PeripheralInfoBuilder {
    /// The builder that sets nothing.
    pub open spec fn empty() -> Self {
        PeripheralInfoBuilder {
            name: None,
            display_name: None,
            version: None,
            description: None,
            alternate_peripheral: None,
            group_name: None,
            prepend_to_name: None,
            append_to_name: None,
            header_struct_name: None,
            base_address: None,
            default_register_properties: RegisterProperties::empty(),
            address_block: None,
            interrupt: None,
            registers: None,
            derived_from: None,
        }
    }

    /// The builder that holds every value of `p`.
    pub open spec fn from_info(p: PeripheralInfo) -> Self {
        PeripheralInfoBuilder {
            name: Some(p.name),
            display_name: p.display_name,
            version: p.version,
            description: p.description,
            alternate_peripheral: p.alternate_peripheral,
            group_name: p.group_name,
            prepend_to_name: p.prepend_to_name,
            append_to_name: p.append_to_name,
            header_struct_name: p.header_struct_name,
            base_address: Some(p.base_address),
            default_register_properties: p.default_register_properties,
            address_block: p.address_block,
            interrupt: Some(p.interrupt),
            registers: p.registers,
            derived_from: p.derived_from,
        }
    }

    /// The peripheral that a builder with a name and a base address
    /// describes, with the interrupts `interrupt` (no rule reads them): empty
    /// texts count as none.
    pub open spec fn built_with(self, interrupt: Vec<Interrupt>) -> PeripheralInfo {
        PeripheralInfo {
            name: self.name->0,
            display_name: nonempty_text(self.display_name),
            version: nonempty_text(self.version),
            description: nonempty_text(self.description),
            alternate_peripheral: nonempty_text(self.alternate_peripheral),
            group_name: nonempty_text(self.group_name),
            prepend_to_name: nonempty_text(self.prepend_to_name),
            append_to_name: nonempty_text(self.append_to_name),
            header_struct_name: nonempty_text(self.header_struct_name),
            base_address: self.base_address->0,
            default_register_properties: self.default_register_properties,
            address_block: self.address_block,
            interrupt,
            registers: self.registers,
            derived_from: self.derived_from,
        }
    }

    /// The interrupts that the builder sets, none counting as empty.
    pub open spec fn interrupts(self) -> Seq<Interrupt> {
        match self.interrupt {
            Some(v) => v@,
            None => Seq::empty(),
        }
    }

    /// Set the name of the peripheral
    pub fn name(self, value: String) -> (r: Self)
        ensures
            r == (PeripheralInfoBuilder { name: Some(value), ..self }),
    {
        PeripheralInfoBuilder { name: Some(value), ..self }
    }
    /// Set the display name of the peripheral
    pub fn display_name(self, value: Option<String>) -> (r: Self)
        ensures
            r == (PeripheralInfoBuilder { display_name: value, ..self }),
    {
        PeripheralInfoBuilder { display_name: value, ..self }
    }

    /// Set the version of the peripheral
    pub fn version(self, value: Option<String>) -> (r: Self)
        ensures
            r == (PeripheralInfoBuilder { version: value, ..self }),
    {
        PeripheralInfoBuilder { version: value, ..self }
    }

    /// Set the description of the peripheral
    pub fn description(self, value: Option<String>) -> (r: Self)
        ensures
            r == (PeripheralInfoBuilder { description: value, ..self }),
    {
        PeripheralInfoBuilder { description: value, ..self }
    }

    /// Set the alternate peripheral
    pub fn alternate_peripheral(self, value: Option<String>) -> (r: Self)
        ensures
            r == (PeripheralInfoBuilder { alternate_peripheral: value, ..self }),
    {
        PeripheralInfoBuilder { alternate_peripheral: value, ..self }
    }

    /// Set the group name of the peripheral
    pub fn group_name(self, value: Option<String>) -> (r: Self)
        ensures
            r == (PeripheralInfoBuilder { group_name: value, ..self }),
    {
        PeripheralInfoBuilder { group_name: value, ..self }
    }

    /// Set the prefix for names of all registers of the peripheral
    pub fn prepend_to_name(self, value: Option<String>) -> (r: Self)
        ensures
            r == (PeripheralInfoBuilder { prepend_to_name: value, ..self }),
    {
        PeripheralInfoBuilder { prepend_to_name: value, ..self }
    }

    /// Set the suffix for names of all registers of the peripheral
    pub fn append_to_name(self, value: Option<String>) -> (r: Self)
        ensures
            r == (PeripheralInfoBuilder { append_to_name: value, ..self }),
    {
        PeripheralInfoBuilder { append_to_name: value, ..self }
    }

    /// Set the header struct name of the peripheral
    pub fn header_struct_name(self, value: Option<String>) -> (r: Self)
        ensures
            r == (PeripheralInfoBuilder { header_struct_name: value, ..self }),
    {
        PeripheralInfoBuilder { header_struct_name: value, ..self }
    }
    /// Set the base address of the peripheral
    pub fn base_address(self, value: u64) -> (r: Self)
        ensures
            r == (PeripheralInfoBuilder { base_address: Some(value), ..self }),
    {
        PeripheralInfoBuilder { base_address: Some(value), ..self }
    }

    /// Set the default register properties of the peripheral
    pub fn default_register_properties(self, value: RegisterProperties) -> (r: Self)
        ensures
            r == (PeripheralInfoBuilder { default_register_properties: value, ..self }),
    {
        PeripheralInfoBuilder { default_register_properties: value, ..self }
    }

    /// Set the address block of the peripheral
    pub fn address_block(self, value: Option<Vec<AddressBlock>>) -> (r: Self)
        ensures
            r == (PeripheralInfoBuilder { address_block: value, ..self }),
    {
        PeripheralInfoBuilder { address_block: value, ..self }
    }

    /// Set the interrupts of the peripheral
    pub fn interrupt(self, value: Option<Vec<Interrupt>>) -> (r: Self)
        ensures
            r == (PeripheralInfoBuilder { interrupt: value, ..self }),
    {
        PeripheralInfoBuilder { interrupt: value, ..self }
    }

    /// Set the registers of the peripheral
    pub fn registers(self, value: Option<Vec<RegisterCluster>>) -> (r: Self)
        ensures
            r == (PeripheralInfoBuilder { registers: value, ..self }),
    {
        PeripheralInfoBuilder { registers: value, ..self }
    }

    /// Set the derived_from attribute of the peripheral
    pub fn derived_from(self, value: Option<String>) -> (r: Self)
        ensures
            r == (PeripheralInfoBuilder { derived_from: value, ..self }),
    {
        PeripheralInfoBuilder { derived_from: value, ..self }
    }

    /// Validate and build a [`PeripheralInfo`]: a name, then a base address,
    /// must be known; the properties are validated, then the peripheral.
    pub fn build(self, lvl: ValidateLevel) -> (r: Result<PeripheralInfo, SvdError>)
        ensures
            self.name is None ==> is_uninit(r, "name"@),
            self.name is Some && self.base_address is None ==> is_uninit(r, "base_address"@),
            self.name is Some && self.base_address is Some ==> {
                &&& properties_outcome(self.default_register_properties, lvl) is Err ==> outcome(r)
                    == properties_outcome(self.default_register_properties, lvl)
                &&& properties_outcome(self.default_register_properties, lvl) is Ok ==> self.built_with(
                    arbitrary(),
                ).validate_spec(lvl, outcome(r))
                &&& r matches Ok(p) ==> p == self.built_with(p.interrupt) && p.interrupt@ == self.interrupts()
            },
    {
        let name = match self.name {
            Some(n) => n,
            None => return Err(SvdError::Build(BuildError::Uninitialized(owned("name")))),
        };
        let base_address = match self.base_address {
            Some(a) => a,
            None => return Err(SvdError::Build(BuildError::Uninitialized(owned("base_address")))),
        };
        let default_register_properties = match self.default_register_properties.build(lvl) {
            Ok(p) => p,
            Err(e) => return Err(e),
        };
        let per = PeripheralInfo {
            name,
            display_name: empty_to_none(self.display_name),
            version: empty_to_none(self.version),
            description: empty_to_none(self.description),
            alternate_peripheral: empty_to_none(self.alternate_peripheral),
            group_name: empty_to_none(self.group_name),
            prepend_to_name: empty_to_none(self.prepend_to_name),
            append_to_name: empty_to_none(self.append_to_name),
            header_struct_name: empty_to_none(self.header_struct_name),
            base_address,
            default_register_properties,
            address_block: self.address_block,
            interrupt: match self.interrupt {
                Some(v) => v,
                None => Vec::new(),
            },
            registers: self.registers,
            derived_from: self.derived_from,
        };
        match per.validate(lvl) {
            Ok(()) => Ok(per),
            Err(e) => Err(e),
        }
    }
}

/// The elements of an optional list, none counting as empty.
pub open spec fn elements_of(o: Option<Vec<RegisterCluster>>) -> Seq<RegisterCluster> {
    match o {
        Some(v) => v@,
        None => Seq::empty(),
    }
}

/// `r` is what [`PeripheralInfo::validate_all`] answers: the default
/// properties, then each register in turn, then each cluster in turn
/// (recursively), then the peripheral itself. Address blocks and interrupts
/// carry no rules.
pub open spec fn peripheral_validate_all(p: PeripheralInfo, lvl: ValidateLevel, r: Result<(), SvdError>) -> bool {
    let ch = elements_of(p.registers);
    if p.default_register_properties.validate_spec(lvl) is Err {
        r == p.default_register_properties.validate_spec(lvl)
    } else if exists|k: int| 0 <= k < ch.len() && ch[k] is Register && !rc_validate_all(ch[k], lvl, Ok(())) {
        r is Err && exists|k: int|
            0 <= k < ch.len() && ch[k] is Register && !rc_validate_all(ch[k], lvl, Ok(())) && (forall|j: int|
                0 <= j < k ==> !(ch[j] is Register && !rc_validate_all(ch[j], lvl, Ok(()))))
                && rc_validate_all(ch[k], lvl, r)
    } else if exists|k: int| 0 <= k < ch.len() && ch[k] is Cluster && !rc_validate_all(ch[k], lvl, Ok(())) {
        r is Err && exists|k: int|
            0 <= k < ch.len() && ch[k] is Cluster && !rc_validate_all(ch[k], lvl, Ok(())) && (forall|j: int|
                0 <= j < k ==> !(ch[j] is Cluster && !rc_validate_all(ch[j], lvl, Ok(()))))
                && rc_validate_all(ch[k], lvl, r)
    } else {
        p.validate_spec(lvl, r)
    }
}

/// The position of the first interrupt named `name`.
pub open spec fn first_interrupt_named(s: Seq<Interrupt>, name: Seq<char>, i: int) -> bool {
    0 <= i < s.len() && s[i].name@ == name && forall|j: int| 0 <= j < i ==> s[j].name@ != name
}

impl PeripheralInfo {
    /// `r` is what [`PeripheralInfo::validate`] answers. With validation
    /// enabled: under strict validation the name must be a dimable name; a
    /// `derivedFrom` must then be a dimable name under strict validation;
    /// otherwise, under strict validation, a `<registers>` tag must hold an
    /// element.
    pub open spec fn validate_spec(self, lvl: ValidateLevel, r: Result<(), SvdError>) -> bool {
        let strict = lvl == ValidateLevel::Strict;
        if lvl == ValidateLevel::Disabled {
            r is Ok
        } else if strict && !dimable_name(self.name@) {
            r matches Err(SvdError::Name(e)) && name_error(self.name@, "name"@, e)
        } else if self.derived_from is Some {
            if strict && !dimable_name(self.derived_from->0@) {
                r matches Err(SvdError::Name(e)) && name_error(self.derived_from->0@, "derivedFrom"@, e)
            } else {
                r is Ok
            }
        } else if strict && (self.registers matches Some(v) && v@.len() == 0) {
            r == Err::<(), SvdError>(SvdError::Peripheral(Error::EmptyRegisters))
        } else {
            r is Ok
        }
    }

    /// The peripheral after the head of a modification: the texts (empty
    /// ones counting as none), the name, the base address and the interrupts.
    pub open spec fn modified_head(self, b: PeripheralInfoBuilder) -> PeripheralInfo {
        PeripheralInfo {
            name: if b.name is Some { b.name->0 } else { self.name },
            display_name: if b.display_name is Some { nonempty_text(b.display_name) } else { self.display_name },
            version: if b.version is Some { nonempty_text(b.version) } else { self.version },
            description: if b.description is Some { nonempty_text(b.description) } else { self.description },
            alternate_peripheral: if b.alternate_peripheral is Some { nonempty_text(b.alternate_peripheral) } else { self.alternate_peripheral },
            group_name: if b.group_name is Some { nonempty_text(b.group_name) } else { self.group_name },
            prepend_to_name: if b.prepend_to_name is Some { nonempty_text(b.prepend_to_name) } else { self.prepend_to_name },
            append_to_name: if b.append_to_name is Some { nonempty_text(b.append_to_name) } else { self.append_to_name },
            header_struct_name: if b.header_struct_name is Some { nonempty_text(b.header_struct_name) } else { self.header_struct_name },
            base_address: if b.base_address is Some { b.base_address->0 } else { self.base_address },
            interrupt: if b.interrupt is Some { b.interrupt->0 } else { self.interrupt },
            ..self
        }
    }

    /// Make a builder for [`PeripheralInfo`]
    pub fn builder() -> (r: PeripheralInfoBuilder)
        ensures
            r == PeripheralInfoBuilder::empty(),
    {
        PeripheralInfoBuilder::default()
    }

    /// Construct single [`Peripheral`]
    pub fn single(self) -> (r: Peripheral)
        ensures
            r == Peripheral::Single(self),
    {
        Peripheral::Single(self)
    }

    /// Construct [`Peripheral`] array
    pub fn array(self, dim: DimElement) -> (r: Peripheral)
        ensures
            r == Peripheral::Array(self, dim),
    {
        Peripheral::Array(self, dim)
    }

    /// Construct single [`Peripheral`] or array
    pub fn maybe_array(self, dim: Option<DimElement>) -> (r: Peripheral)
        ensures
            r == (match dim {
                Some(d) => Peripheral::Array(self, d),
                None => Peripheral::Single(self),
            }),
    {
        match dim {
            Some(d) => self.array(d),
            None => self.single(),
        }
    }

    /// Modify an existing [`Peripheral`] based on a [builder](PeripheralInfoBuilder).
    /// A builder that derives from another peripheral clears the registers,
    /// the address blocks and the default properties. Otherwise set address
    /// blocks replace the current ones, the default properties are modified
    /// by those of the builder (a refusal stops the modification with that
    /// error), and set registers replace the current ones (an empty list
    /// counting as none).
    /// What modifying `self` by `builder` at level `lvl` gives: `new`, with
    /// the outcome `r` (see [`Self::modify_from`]).
    pub open spec fn modified_by(self, builder: PeripheralInfoBuilder, lvl: ValidateLevel, new: PeripheralInfo, r: Result<(), SvdError>) -> bool {
        let h = self.modified_head(builder);
        let blocks = if builder.address_block is Some { builder.address_block } else { h.address_block };
        let p = h.default_register_properties.modified(builder.default_register_properties);
        if builder.derived_from is Some {
            &&& new == PeripheralInfo {
                derived_from: builder.derived_from,
                registers: None,
                address_block: None,
                default_register_properties: RegisterProperties::empty(),
                ..h
            }
            &&& new.validate_spec(lvl, r)
        } else if properties_outcome(p, lvl) is Err {
            &&& r == properties_outcome(p, lvl)
            &&& new == PeripheralInfo {
                address_block: blocks,
                default_register_properties: p,
                ..h
            }
        } else {
            &&& new == PeripheralInfo {
                address_block: blocks,
                default_register_properties: p,
                registers: if builder.registers is Some {
                    nonempty_list(builder.registers)
                } else {
                    h.registers
                },
                ..h
            }
            &&& new.validate_spec(lvl, r)
        }
    }

    #[verifier::rlimit(50)]
    pub fn modify_from(&mut self, builder: PeripheralInfoBuilder, lvl: ValidateLevel) -> (r: Result<(), SvdError>)
        ensures
            old(self).modified_by(builder, lvl, *final(self), r),
    {
        if let Some(name) = builder.name {
            self.name = name;
        }
        if builder.display_name.is_some() {
            self.display_name = empty_to_none(builder.display_name);
        }
        if builder.version.is_some() {
            self.version = empty_to_none(builder.version);
        }
        if builder.description.is_some() {
            self.description = empty_to_none(builder.description);
        }
        if builder.alternate_peripheral.is_some() {
            self.alternate_peripheral = empty_to_none(builder.alternate_peripheral);
        }
        if builder.group_name.is_some() {
            self.group_name = empty_to_none(builder.group_name);
        }
        if builder.prepend_to_name.is_some() {
            self.prepend_to_name = empty_to_none(builder.prepend_to_name);
        }
        if builder.append_to_name.is_some() {
            self.append_to_name = empty_to_none(builder.append_to_name);
        }
        if builder.header_struct_name.is_some() {
            self.header_struct_name = empty_to_none(builder.header_struct_name);
        }
        if let Some(base_address) = builder.base_address {
            self.base_address = base_address;
        }
        if let Some(interrupt) = builder.interrupt {
            self.interrupt = interrupt;
        }
        if builder.derived_from.is_some() {
            self.derived_from = builder.derived_from;
            self.registers = None;
            self.address_block = None;
            self.default_register_properties = RegisterProperties::new();
        } else {
            if builder.address_block.is_some() {
                self.address_block = builder.address_block;
            }
            match self.default_register_properties.modify_from(builder.default_register_properties, lvl) {
                Ok(()) => {},
                Err(e) => return Err(e),
            }
            if builder.registers.is_some() {
                self.registers = empty_vec_to_none(builder.registers);
            }
        }
        self.validate(lvl)
    }

    /// Validate the [`PeripheralInfo`]
    pub fn validate(&self, lvl: ValidateLevel) -> (r: Result<(), SvdError>)
        ensures
            self.validate_spec(lvl, r),
    {
        if lvl.is_disabled() {
            return Ok(());
        }
        if lvl.is_strict() {
            match check_dimable_name(self.name.as_str(), "name") {
                Ok(()) => {},
                Err(e) => return Err(SvdError::Name(e)),
            }
        }
        if let Some(name) = &self.derived_from {
            if lvl.is_strict() {
                match check_dimable_name(name.as_str(), "derivedFrom") {
                    Ok(()) => {},
                    Err(e) => return Err(SvdError::Name(e)),
                }
            }
        } else if let Some(registers) = &self.registers {
            if registers.len() == 0 && lvl.is_strict() {
                return Err(SvdError::Peripheral(Error::EmptyRegisters));
            }
        }
        Ok(())
    }

    /// Validate the [`PeripheralInfo`] recursively
    pub fn validate_all(&self, lvl: ValidateLevel) -> (r: Result<(), SvdError>)
        ensures
            peripheral_validate_all(*self, lvl, r),
    {
        match self.default_register_properties.check(lvl) {
            Ok(()) => {},
            Err(e) => return Err(e),
        }
        if let Some(children) = &self.registers {
            let ghost ch = children@;
            let mut i: usize = 0;
            while i < children.len()
                invariant
                    ch == children@,
                    ch == elements_of(self.registers),
                    i <= ch.len(),
                    self.default_register_properties.validate_spec(lvl) is Ok,
                    forall|j: int| 0 <= j < i ==> !(ch[j] is Register && !rc_validate_all(ch[j], lvl, Ok(()))),
                decreases ch.len() - i,
            {
                match &children[i] {
                    RegisterCluster::Register(b) => {
                        match b.validate_all(lvl) {
                            Ok(()) => {},
                            Err(e) => {
                                assert(!rc_validate_all(ch[i as int], lvl, Ok(())));
                                assert(rc_validate_all(ch[i as int], lvl, Err(e)));
                                return Err(e);
                            },
                        }
                    },
                    RegisterCluster::Cluster(_) => {},
                }
                i += 1;
            }
            let mut i: usize = 0;
            while i < children.len()
                invariant
                    ch == children@,
                    ch == elements_of(self.registers),
                    i <= ch.len(),
                    self.default_register_properties.validate_spec(lvl) is Ok,
                    forall|j: int| 0 <= j < ch.len() ==> !(ch[j] is Register && !rc_validate_all(ch[j], lvl, Ok(()))),
                    forall|j: int| 0 <= j < i ==> !(ch[j] is Cluster && !rc_validate_all(ch[j], lvl, Ok(()))),
                decreases ch.len() - i,
            {
                match &children[i] {
                    RegisterCluster::Cluster(c) => {
                        match c.validate_all(lvl) {
                            Ok(()) => {},
                            Err(e) => {
                                assert(!rc_validate_all(ch[i as int], lvl, Ok(())));
                                assert(rc_validate_all(ch[i as int], lvl, Err(e)));
                                return Err(e);
                            },
                        }
                    },
                    RegisterCluster::Register(_) => {},
                }
                i += 1;
            }
        }
        self.validate(lvl)
    }

    /// Returns the child registers
    pub fn registers(&self) -> (r: Vec<&Register>)
        ensures
            r@.len() == child_registers(elements_of(self.registers)).len(),
            forall|i: int| 0 <= i < r@.len() ==> *r@[i] == child_registers(elements_of(self.registers))[i],
    {
        match &self.registers {
            Some(regs) => registers_of(regs),
            None => Vec::new(),
        }
    }

    /// Returns the child clusters
    pub fn clusters(&self) -> (r: Vec<&Cluster>)
        ensures
            r@.len() == child_clusters(elements_of(self.registers)).len(),
            forall|i: int| 0 <= i < r@.len() ==> *r@[i] == child_clusters(elements_of(self.registers))[i],
    {
        match &self.registers {
            Some(regs) => clusters_of(regs),
            None => Vec::new(),
        }
    }

    /// Returns all descendant registers, in document order
    pub fn reg_iter(&self) -> (r: Vec<&Register>)
        ensures
            r@.len() == seq_registers(elements_of(self.registers)).len(),
            forall|i: int| 0 <= i < r@.len() ==> *r@[i] == seq_registers(elements_of(self.registers))[i],
    {
        self.all_registers()
    }

    /// Returns all descendant registers, in document order
    pub fn all_registers(&self) -> (r: Vec<&Register>)
        ensures
            r@.len() == seq_registers(elements_of(self.registers)).len(),
            forall|i: int| 0 <= i < r@.len() ==> *r@[i] == seq_registers(elements_of(self.registers))[i],
    {
        let mut out: Vec<&Register> = Vec::new();
        match &self.registers {
            Some(regs) => collect_registers(regs, &mut out),
            None => {
                assert(seq_registers(Seq::<RegisterCluster>::empty()) =~= Seq::<Register>::empty());
            },
        }
        out
    }

    /// Get register by name: the first child register with that name.
    pub fn get_register(&self, name: &str) -> (r: Option<&Register>)
        ensures
            match r {
                Some(reg) => exists|i: int|
                    first_register_named(elements_of(self.registers), name@, i) && elements_of(self.registers)[i]
                        == RegisterCluster::Register(Box::new(*reg)),
                None => forall|j: int|
                    0 <= j < elements_of(self.registers).len() ==> !register_named(elements_of(self.registers), j, name@),
            },
    {
        match &self.registers {
            Some(regs) => match {
                assert(elements_of(self.registers) == regs@);
                find_register(regs, name)
            } {
                Some(i) => match &regs[i] {
                    RegisterCluster::Register(b) => Some(&**b),
                    RegisterCluster::Cluster(_) => None,
                },
                None => None,
            },
            None => None,
        }
    }

    /// Get mutable register by name: the first child register with that name.
    pub fn get_mut_register(&mut self, name: &str) -> (r: Option<&mut Register>)
        ensures
            match r {
                Some(reg) => exists|i: int|
                    first_register_named(elements_of(old(self).registers), name@, i) && elements_of(old(self).registers)[i]
                        == RegisterCluster::Register(Box::new(*reg)) && final(self).registers is Some
                        && elements_of(final(self).registers) == elements_of(old(self).registers).update(
                        i,
                        RegisterCluster::Register(Box::new(*final(reg))),
                    ) && *final(self) == PeripheralInfo { registers: final(self).registers, ..*old(self) },
                None => *final(self) == *old(self) && forall|j: int|
                    0 <= j < elements_of(old(self).registers).len() ==> !register_named(
                        elements_of(old(self).registers),
                        j,
                        name@,
                    ),
            },
    {
        let found = match &self.registers {
            Some(regs) => {
                assert(elements_of(self.registers) == regs@);
                find_register(regs, name)
            },
            None => None,
        };
        match found {
            Some(i) => match &mut self.registers {
                Some(regs) => match &mut regs[i] {
                    RegisterCluster::Register(b) => Some(&mut **b),
                    RegisterCluster::Cluster(_) => None,
                },
                None => None,
            },
            None => None,
        }
    }

    /// Get cluster by name: the first child cluster with that name.
    pub fn get_cluster(&self, name: &str) -> (r: Option<&Cluster>)
        ensures
            match r {
                Some(c) => exists|i: int|
                    first_cluster_named(elements_of(self.registers), name@, i) && elements_of(self.registers)[i]
                        == RegisterCluster::Cluster(Box::new(*c)),
                None => forall|j: int|
                    0 <= j < elements_of(self.registers).len() ==> !cluster_named(elements_of(self.registers), j, name@),
            },
    {
        match &self.registers {
            Some(regs) => match {
                assert(elements_of(self.registers) == regs@);
                find_cluster(regs, name)
            } {
                Some(i) => match &regs[i] {
                    RegisterCluster::Cluster(b) => Some(&**b),
                    RegisterCluster::Register(_) => None,
                },
                None => None,
            },
            None => None,
        }
    }

    /// Get mutable cluster by name: the first child cluster with that name.
    pub fn get_mut_cluster(&mut self, name: &str) -> (r: Option<&mut Cluster>)
        ensures
            match r {
                Some(c) => exists|i: int|
                    first_cluster_named(elements_of(old(self).registers), name@, i) && elements_of(old(self).registers)[i]
                        == RegisterCluster::Cluster(Box::new(*c)) && final(self).registers is Some
                        && elements_of(final(self).registers) == elements_of(old(self).registers).update(
                        i,
                        RegisterCluster::Cluster(Box::new(*final(c))),
                    ) && *final(self) == PeripheralInfo { registers: final(self).registers, ..*old(self) },
                None => *final(self) == *old(self) && forall|j: int|
                    0 <= j < elements_of(old(self).registers).len() ==> !cluster_named(
                        elements_of(old(self).registers),
                        j,
                        name@,
                    ),
            },
    {
        let found = match &self.registers {
            Some(regs) => {
                assert(elements_of(self.registers) == regs@);
                find_cluster(regs, name)
            },
            None => None,
        };
        match found {
            Some(i) => match &mut self.registers {
                Some(regs) => match &mut regs[i] {
                    RegisterCluster::Cluster(b) => Some(&mut **b),
                    RegisterCluster::Register(_) => None,
                },
                None => None,
            },
            None => None,
        }
    }

    /// Get interrupt by name: the first with that name.
    pub fn get_interrupt(&self, name: &str) -> (r: Option<&Interrupt>)
        ensures
            match r {
                Some(e) => exists|i: int| first_interrupt_named(self.interrupt@, name@, i) && self.interrupt@[i] == *e,
                None => forall|j: int| 0 <= j < self.interrupt@.len() ==> self.interrupt@[j].name@ != name@,
            },
    {
        let mut i: usize = 0;
        while i < self.interrupt.len()
            invariant
                i <= self.interrupt@.len(),
                forall|j: int| 0 <= j < i ==> self.interrupt@[j].name@ != name@,
            decreases self.interrupt@.len() - i,
        {
            if str_eq(self.interrupt[i].name.as_str(), name) {
                assert(first_interrupt_named(self.interrupt@, name@, i as int));
                return Some(&self.interrupt[i]);
            }
            i += 1;
        }
        None
    }

    /// Get mutable interrupt by name: the first with that name.
    pub fn get_mut_interrupt(&mut self, name: &str) -> (r: Option<&mut Interrupt>)
        ensures
            match r {
                Some(e) => exists|i: int|
                    first_interrupt_named(old(self).interrupt@, name@, i) && old(self).interrupt@[i] == *e
                        && final(self).interrupt@ == old(self).interrupt@.update(i, *final(e))
                        && *final(self) == PeripheralInfo { interrupt: final(self).interrupt, ..*old(self) },
                None => *final(self) == *old(self) && forall|j: int|
                    0 <= j < old(self).interrupt@.len() ==> old(self).interrupt@[j].name@ != name@,
            },
    {
        let mut found: Option<usize> = None;
        let mut i: usize = 0;
        while i < self.interrupt.len()
            invariant_except_break
                found is None,
            invariant
                i <= self.interrupt@.len(),
                forall|j: int| 0 <= j < i ==> self.interrupt@[j].name@ != name@,
            ensures
                match found {
                    Some(k) => first_interrupt_named(self.interrupt@, name@, k as int),
                    None => forall|j: int| 0 <= j < self.interrupt@.len() ==> self.interrupt@[j].name@ != name@,
                },
            decreases self.interrupt@.len() - i,
        {
            if str_eq(self.interrupt[i].name.as_str(), name) {
                found = Some(i);
                break;
            }
            i += 1;
        }
        match found {
            Some(k) => Some(&mut self.interrupt[k]),
            None => None,
        }
    }
}

impl Peripheral {
    /// Validate the [`Peripheral`] recursively
    pub fn validate_all(&self, lvl: ValidateLevel) -> (r: Result<(), SvdError>)
        ensures
            peripheral_validate_all(self.info_spec(), lvl, r),
    {
        if let Peripheral::Array(_, dim) = self {
            match dim.validate(lvl) {
                Ok(()) => {},
                Err(e) => return Err(e),
            }
        }
        self.info().validate_all(lvl)
    }
}

impl Name for PeripheralInfo {
    open spec fn name_spec(&self) -> Seq<char> {
        self.name@
    }

    fn name(&self) -> (r: &str) {
        self.name.as_str()
    }
}

impl Description for PeripheralInfo {
    open spec fn description_spec(&self) -> Option<Seq<char>> {
        opt_chars(self.description)
    }

    fn description(&self) -> (r: Option<&str>) {
        match &self.description {
            Some(d) => Some(d.as_str()),
            None => None,
        }
    }
}

} // verus!
