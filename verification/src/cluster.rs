use vstd::prelude::*;

use crate::array::{descriptions, expand_name, names};
use crate::dimelement::{indexes_cover, indexes_spec};
use crate::field::{clone_opt, opt_chars};
use crate::register::properties_outcome;
use crate::registercluster::{
    child_clusters, child_registers, clusters_of, collect_registers, registers_of, seq_registers,
};
use crate::text::{owned, str_eq, strings_view};
use crate::{
    check_derived_name, check_dimable_name, derived_name, dimable_name, empty_to_none, is_uninit,
    name_error, nonempty_text, outcome, BuildError, Description, DimElement, MaybeArray, Name,
    Register, RegisterCluster, RegisterProperties, SvdError, ValidateLevel,
};

verus! {

/// Cluster describes a sequence of neighboring registers within a peripheral.
pub type Cluster = MaybeArray<ClusterInfo>;

/// Errors from [`ClusterInfo::validate`]
#[derive(Clone, Copy, Debug, PartialEq, Eq, Structural)]
pub enum Error {
    /// The cluster can not be empty
    EmptyCluster,
}

/// Description of a cluster
#[derive(Debug)]
pub struct ClusterInfo {
    /// String to identify the cluster.
    /// Cluster names are required to be unique within the scope of a peripheral
    pub name: String,
    /// String describing the details of the register cluster
    pub description: Option<String>,
    /// Specify the name of the original cluster if this cluster provides an alternative description
    pub alternate_cluster: Option<String>,
    /// Specify the struct type name created in the device header file
    pub header_struct_name: Option<String>,
    /// Cluster address relative to the `baseAddress` of the peripheral
    pub address_offset: u32,
    /// Default properties for all registers
    pub default_register_properties: RegisterProperties,
    /// Children/members of the cluster
    pub children: Vec<RegisterCluster>,
    /// Specify the cluster name from which to inherit data.
    /// Elements specified subsequently override inherited values
    pub derived_from: Option<String>,
}

/// `b` has the shape of `a`: as many elements, each of the same kind and
/// name.
pub open spec fn same_elements(a: Seq<RegisterCluster>, b: Seq<RegisterCluster>) -> bool {
    &&& a.len() == b.len()
    &&& forall|i: int|
        0 <= i < a.len() ==> (#[trigger] b[i]).name_spec() == a[i].name_spec() && (b[i] is Register) == (
        a[i] is Register)
}

impl Clone for ClusterInfo {
    fn clone(&self) -> (r: Self)
        ensures
            r == (ClusterInfo { children: r.children, ..*self }),
            same_elements(self.children@, r.children@),
        decreases self,
    {
        let mut children: Vec<RegisterCluster> = Vec::new();
        let mut i: usize = 0;
        while i < self.children.len()
            invariant
                i <= self.children@.len(),
                children@.len() == i,
                forall|k: int|
                    0 <= k < i ==> (#[trigger] children@[k]).name_spec() == self.children@[k].name_spec()
                        && (children@[k] is Register) == (self.children@[k] is Register),
            decreases self.children@.len() - i,
        {
            children.push(clone_element(&self.children[i]));
            i += 1;
        }
        ClusterInfo {
            name: self.name.clone(),
            description: clone_opt(&self.description),
            alternate_cluster: clone_opt(&self.alternate_cluster),
            header_struct_name: clone_opt(&self.header_struct_name),
            address_offset: self.address_offset,
            default_register_properties: self.default_register_properties,
            children,
            derived_from: clone_opt(&self.derived_from),
        }
    }
}

/// A copy of a register or cluster, of the same kind and with the same name.
pub fn clone_element(rc: &RegisterCluster) -> (r: RegisterCluster)
    ensures
        r.name_spec() == rc.name_spec(),
        (r is Register) == (rc is Register),
    decreases rc,
{
    match rc {
        RegisterCluster::Register(b) => {
            let reg = match &**b {
                Register::Single(x) => Register::Single(x.clone()),
                Register::Array(x, d) => Register::Array(x.clone(), d.clone()),
            };
            RegisterCluster::Register(Box::new(reg))
        },
        RegisterCluster::Cluster(c) => {
            let cl = match &**c {
                Cluster::Single(x) => Cluster::Single(x.clone()),
                Cluster::Array(x, d) => Cluster::Array(x.clone(), d.clone()),
            };
            RegisterCluster::Cluster(Box::new(cl))
        },
    }
}

/// `b` holds clones of the elements of `a`, one for one.
pub open spec fn children_cloned(a: Seq<RegisterCluster>, b: Seq<RegisterCluster>) -> bool {
    a.len() == b.len() && forall|i: int| 0 <= i < a.len() ==> cloned::<RegisterCluster>(a[i], #[trigger] b[i])
}

/// Return the address offsets of each cluster in an array
pub fn address_offsets(info: &ClusterInfo, dim: &DimElement) -> (r: Vec<u32>)
    requires
        dim.dim == 0 || info.address_offset + (dim.dim - 1) * dim.dim_increment <= u32::MAX,
    ensures
        r@ == Seq::new(dim.dim as nat, |i: int| (info.address_offset + i * dim.dim_increment) as u32),
{
    let mut out: Vec<u32> = Vec::new();
    let mut i: u32 = 0;
    while i < dim.dim
        invariant
            i <= dim.dim,
            dim.dim == 0 || info.address_offset + (dim.dim - 1) * dim.dim_increment <= u32::MAX,
            out@ =~= Seq::new(i as nat, |k: int| (info.address_offset + k * dim.dim_increment) as u32),
        decreases dim.dim - i,
    {
        assert(i * dim.dim_increment <= (dim.dim - 1) * dim.dim_increment) by (nonlinear_arith)
            requires
                i <= dim.dim - 1,
        ;
        out.push(info.address_offset + i * dim.dim_increment);
        i += 1;
    }
    out
}

/// The cluster of an array with index text `idx`: named and described after
/// the index, placed at `offset`, its children cloned.
pub open spec fn cluster_element(info: ClusterInfo, c: ClusterInfo, idx: Seq<char>, offset: u32) -> bool {
    &&& c.name@ == expand_name(info.name@, idx)
    &&& opt_chars(c.description) == match info.description {
        Some(d) => Some(expand_name(d@, idx)),
        None => None,
    }
    &&& c.address_offset == offset
    &&& children_cloned(info.children@, c.children@)
    &&& c == ClusterInfo {
        name: c.name,
        description: c.description,
        address_offset: c.address_offset,
        children: c.children,
        ..info
    }
}

/// Extract `ClusterInfo` items from array
pub fn expand(info: &ClusterInfo, dim: &DimElement) -> (r: Vec<ClusterInfo>)
    requires
        indexes_cover(dim@),
        dim.dim == 0 || info.address_offset + (dim.dim - 1) * dim.dim_increment <= u32::MAX,
    ensures
        r@.len() == dim.dim,
        forall|i: int|
            0 <= i < dim.dim ==> cluster_element(
                *info,
                #[trigger] r@[i],
                indexes_spec(dim@)[i],
                (info.address_offset + i * dim.dim_increment) as u32,
            ),
{
    let ns = names(info.name.as_str(), dim);
    let ds = descriptions(
        match &info.description {
            Some(d) => Some(d.as_str()),
            None => None,
        },
        dim,
    );
    let offs = address_offsets(info, dim);
    let mut out: Vec<ClusterInfo> = Vec::new();
    let mut i: usize = 0;
    assert(strings_view(ns@).len() == ns@.len());
    while i < ns.len()
        invariant
            i <= ns@.len(),
            ns@.len() == dim.dim,
            ds@.len() == dim.dim,
            offs@.len() == dim.dim,
            strings_view(ns@) == Seq::new(
                dim.dim as nat,
                |k: int| expand_name(info.name@, indexes_spec(dim@)[k]),
            ),
            forall|k: int|
                0 <= k < dim.dim ==> match info.description {
                    Some(d) => (#[trigger] ds@[k]) matches Some(s) && s@ == expand_name(
                        d@,
                        indexes_spec(dim@)[k],
                    ),
                    None => ds@[k] is None,
                },
            offs@ == Seq::new(dim.dim as nat, |k: int| (info.address_offset + k * dim.dim_increment) as u32),
            out@.len() == i,
            forall|k: int|
                0 <= k < i ==> cluster_element(
                    *info,
                    #[trigger] out@[k],
                    indexes_spec(dim@)[k],
                    (info.address_offset + k * dim.dim_increment) as u32,
                ),
        decreases ns@.len() - i,
    {
        let c = ClusterInfo {
            name: ns[i].clone(),
            description: clone_opt(&ds[i]),
            alternate_cluster: clone_opt(&info.alternate_cluster),
            header_struct_name: clone_opt(&info.header_struct_name),
            address_offset: offs[i],
            default_register_properties: info.default_register_properties,
            children: info.children.clone(),
            derived_from: clone_opt(&info.derived_from),
        };
        assert(strings_view(ns@)[i as int] == ns@[i as int]@);
        out.push(c);
        i += 1;
    }
    out
}

/// Builder for [`ClusterInfo`]
#[derive(Debug)]
pub struct ClusterInfoBuilder {
    /// The name, if set.
    pub name: Option<String>,
    /// The description, if set.
    pub description: Option<String>,
    /// The alternate cluster, if set.
    pub alternate_cluster: Option<String>,
    /// The header struct name, if set.
    pub header_struct_name: Option<String>,
    /// The address offset, if set.
    pub address_offset: Option<u32>,
    /// The default register properties.
    pub default_register_properties: RegisterProperties,
    /// The children, if set.
    pub children: Option<Vec<RegisterCluster>>,
    /// The element this one derives from, if set.
    pub derived_from: Option<String>,
}

impl Default for ClusterInfoBuilder {
    fn default() -> (r: Self)
        ensures
            r == ClusterInfoBuilder::empty(),
    {
        ClusterInfoBuilder {
            name: None,
            description: None,
            alternate_cluster: None,
            header_struct_name: None,
            address_offset: None,
            default_register_properties: RegisterProperties::new(),
            children: None,
            derived_from: None,
        }
    }
}

impl From<ClusterInfo> for ClusterInfoBuilder {
    fn from(c: ClusterInfo) -> (r: Self)
        ensures
            r == Self::from_info(c),
    {
        ClusterInfoBuilder {
            name: Some(c.name),
            description: c.description,
            alternate_cluster: c.alternate_cluster,
            header_struct_name: c.header_struct_name,
            address_offset: Some(c.address_offset),
            default_register_properties: c.default_register_properties,
            children: Some(c.children),
            derived_from: c.derived_from,
        }
    }
}

impl vstd::std_specs::convert::FromSpecImpl<ClusterInfo> for ClusterInfoBuilder {
    open spec fn obeys_from_spec() -> bool {
        true
    }

    open spec fn from_spec(c: ClusterInfo) -> Self {
        Self::from_info(c)
    }
}

impl ClusterInfoBuilder {
    /// The builder that sets nothing.
    pub open spec fn empty() -> Self {
        ClusterInfoBuilder {
            name: None,
            description: None,
            alternate_cluster: None,
            header_struct_name: None,
            address_offset: None,
            default_register_properties: RegisterProperties::empty(),
            children: None,
            derived_from: None,
        }
    }

    /// The builder that holds every value of `c`.
    pub open spec fn from_info(c: ClusterInfo) -> Self {
        ClusterInfoBuilder {
            name: Some(c.name),
            description: c.description,
            alternate_cluster: c.alternate_cluster,
            header_struct_name: c.header_struct_name,
            address_offset: Some(c.address_offset),
            default_register_properties: c.default_register_properties,
            children: Some(c.children),
            derived_from: c.derived_from,
        }
    }

    /// The cluster that a complete builder describes: empty texts count as
    /// none.
    pub open spec fn built(self) -> ClusterInfo {
        ClusterInfo {
            name: self.name->0,
            description: nonempty_text(self.description),
            alternate_cluster: nonempty_text(self.alternate_cluster),
            header_struct_name: nonempty_text(self.header_struct_name),
            address_offset: self.address_offset->0,
            default_register_properties: self.default_register_properties,
            children: self.children->0,
            derived_from: self.derived_from,
        }
    }

    /// Set the name of the cluster.
    pub fn name(self, value: String) -> (r: Self)
        ensures
            r == (ClusterInfoBuilder { name: Some(value), ..self }),
    {
        ClusterInfoBuilder { name: Some(value), ..self }
    }

    /// Set the description of the cluster.
    pub fn description(self, value: Option<String>) -> (r: Self)
        ensures
            r == (ClusterInfoBuilder { description: value, ..self }),
    {
        ClusterInfoBuilder { description: value, ..self }
    }

    /// Set the alternate cluster.
    pub fn alternate_cluster(self, value: Option<String>) -> (r: Self)
        ensures
            r == (ClusterInfoBuilder { alternate_cluster: value, ..self }),
    {
        ClusterInfoBuilder { alternate_cluster: value, ..self }
    }

    /// Set the struct type name of the cluster. If not specified, the name of the cluster should be used.
    pub fn header_struct_name(self, value: Option<String>) -> (r: Self)
        ensures
            r == (ClusterInfoBuilder { header_struct_name: value, ..self }),
    {
        ClusterInfoBuilder { header_struct_name: value, ..self }
    }

    /// Set the address_offset of the cluster, relative to the base address of the peripheral.
    pub fn address_offset(self, value: u32) -> (r: Self)
        ensures
            r == (ClusterInfoBuilder { address_offset: Some(value), ..self }),
    {
        ClusterInfoBuilder { address_offset: Some(value), ..self }
    }

    /// Set the default_register_properties of the cluster.
    pub fn default_register_properties(self, value: RegisterProperties) -> (r: Self)
        ensures
            r == (ClusterInfoBuilder { default_register_properties: value, ..self }),
    {
        ClusterInfoBuilder { default_register_properties: value, ..self }
    }

    /// Set the children of the cluster.
    pub fn children(self, value: Vec<RegisterCluster>) -> (r: Self)
        ensures
            r == (ClusterInfoBuilder { children: Some(value), ..self }),
    {
        ClusterInfoBuilder { children: Some(value), ..self }
    }

    /// Set the derived_from of the cluster.
    pub fn derived_from(self, value: Option<String>) -> (r: Self)
        ensures
            r == (ClusterInfoBuilder { derived_from: value, ..self }),
    {
        ClusterInfoBuilder { derived_from: value, ..self }
    }

    /// Validate and build a [`ClusterInfo`]: a name, then an address
    /// offset, must be known; then the properties are validated; then the
    /// children must be set; then the cluster is validated.
    pub fn build(self, lvl: ValidateLevel) -> (r: Result<ClusterInfo, SvdError>)
        ensures
            self.name is None ==> is_uninit(r, "name"@),
            self.name is Some && self.address_offset is None ==> is_uninit(r, "address_offset"@),
            self.name is Some && self.address_offset is Some && properties_outcome(
                self.default_register_properties,
                lvl,
            ) is Err ==> outcome(r) == properties_outcome(self.default_register_properties, lvl),
            self.name is Some && self.address_offset is Some && properties_outcome(
                self.default_register_properties,
                lvl,
            ) is Ok && self.children is None ==> is_uninit(r, "children"@),
            self.name is Some && self.address_offset is Some && properties_outcome(
                self.default_register_properties,
                lvl,
            ) is Ok && self.children is Some ==> {
                &&& self.built().validate_spec(lvl, outcome(r))
                &&& r matches Ok(c) ==> c == self.built()
            },
    {
        let name = match self.name {
            Some(n) => n,
            None => return Err(SvdError::Build(BuildError::Uninitialized(owned("name")))),
        };
        let address_offset = match self.address_offset {
            Some(a) => a,
            None => return Err(SvdError::Build(BuildError::Uninitialized(owned("address_offset")))),
        };
        let default_register_properties = match self.default_register_properties.build(lvl) {
            Ok(p) => p,
            Err(e) => return Err(e),
        };
        let children = match self.children {
            Some(c) => c,
            None => return Err(SvdError::Build(BuildError::Uninitialized(owned("children")))),
        };
        let cluster = ClusterInfo {
            name,
            description: empty_to_none(self.description),
            alternate_cluster: empty_to_none(self.alternate_cluster),
            header_struct_name: empty_to_none(self.header_struct_name),
            address_offset,
            default_register_properties,
            children,
            derived_from: self.derived_from,
        };
        match cluster.validate(lvl) {
            Ok(()) => Ok(cluster),
            Err(e) => Err(e),
        }
    }
}

/// `r` is what validating the element `rc` recursively answers.
pub open spec fn rc_validate_all(rc: RegisterCluster, lvl: ValidateLevel, r: Result<(), SvdError>) -> bool
    decreases rc,
{
    match rc {
        RegisterCluster::Register(b) => b.info_spec().validate_all_spec(lvl, r),
        RegisterCluster::Cluster(c) => match *c {
            Cluster::Single(x) => cluster_validate_all(x, lvl, r),
            Cluster::Array(x, _) => cluster_validate_all(x, lvl, r),
        },
    }
}

/// The element `rc` is a register refused by recursive validation.
pub open spec fn register_fails(rc: RegisterCluster, lvl: ValidateLevel) -> bool {
    rc is Register && !rc_validate_all(rc, lvl, Ok(()))
}

/// The element `rc` is a cluster refused by recursive validation.
pub open spec fn cluster_fails(rc: RegisterCluster, lvl: ValidateLevel) -> bool {
    rc is Cluster && !rc_validate_all(rc, lvl, Ok(()))
}

/// `r` is what [`ClusterInfo::validate_all`] answers: the default
/// properties, then each child register in turn, then each child cluster in
/// turn (recursively), then the cluster itself.
pub open spec fn cluster_validate_all(c: ClusterInfo, lvl: ValidateLevel, r: Result<(), SvdError>) -> bool
    decreases c,
{
    let ch = c.children@;
    if c.default_register_properties.validate_spec(lvl) is Err {
        r == c.default_register_properties.validate_spec(lvl)
    } else if exists|k: int| 0 <= k < ch.len() && ch[k] is Register && !rc_validate_all(ch[k], lvl, Ok(())) {
        r is Err && exists|k: int|
            0 <= k < ch.len() && ch[k] is Register && !rc_validate_all(ch[k], lvl, Ok(())) && (forall|j: int|
                0 <= j < k ==> !(ch[j] is Register && !rc_validate_all(ch[j], lvl, Ok(())))) && rc_validate_all(ch[k], lvl, r)
    } else if exists|k: int| 0 <= k < ch.len() && ch[k] is Cluster && !rc_validate_all(ch[k], lvl, Ok(())) {
        r is Err && exists|k: int|
            0 <= k < ch.len() && ch[k] is Cluster && !rc_validate_all(ch[k], lvl, Ok(())) && (forall|j: int|
                0 <= j < k ==> !(ch[j] is Cluster && !rc_validate_all(ch[j], lvl, Ok(())))) && rc_validate_all(ch[k], lvl, r)
    } else {
        c.validate_spec(lvl, r)
    }
}

/// The element of `children` at `i` is a register named `name`.
pub open spec fn register_named(children: Seq<RegisterCluster>, i: int, name: Seq<char>) -> bool {
    children[i] matches RegisterCluster::Register(b) && b.info_spec().name@ == name
}

/// The element of `children` at `i` is a cluster named `name`.
pub open spec fn cluster_named(children: Seq<RegisterCluster>, i: int, name: Seq<char>) -> bool {
    children[i] matches RegisterCluster::Cluster(b) && b.info_spec().name@ == name
}

/// The position of the first register named `name` among `children`.
pub open spec fn first_register_named(children: Seq<RegisterCluster>, name: Seq<char>, i: int) -> bool {
    0 <= i < children.len() && register_named(children, i, name) && forall|j: int|
        0 <= j < i ==> !register_named(children, j, name)
}

/// The position of the first cluster named `name` among `children`.
pub open spec fn first_cluster_named(children: Seq<RegisterCluster>, name: Seq<char>, i: int) -> bool {
    0 <= i < children.len() && cluster_named(children, i, name) && forall|j: int|
        0 <= j < i ==> !cluster_named(children, j, name)
}

/// Finds the first register named `name` among `children`.
pub fn find_register(children: &Vec<RegisterCluster>, name: &str) -> (r: Option<usize>)
    ensures
        match r {
            Some(i) => first_register_named(children@, name@, i as int),
            None => forall|j: int| 0 <= j < children@.len() ==> !register_named(children@, j, name@),
        },
{
    let mut i: usize = 0;
    while i < children.len()
        invariant
            i <= children@.len(),
            forall|j: int| 0 <= j < i ==> !register_named(children@, j, name@),
        decreases children@.len() - i,
    {
        match &children[i] {
            RegisterCluster::Register(b) => {
                if str_eq(b.info().name.as_str(), name) {
                    return Some(i);
                }
            },
            RegisterCluster::Cluster(_) => {},
        }
        i += 1;
    }
    None
}

/// Finds the first cluster named `name` among `children`.
pub fn find_cluster(children: &Vec<RegisterCluster>, name: &str) -> (r: Option<usize>)
    ensures
        match r {
            Some(i) => first_cluster_named(children@, name@, i as int),
            None => forall|j: int| 0 <= j < children@.len() ==> !cluster_named(children@, j, name@),
        },
{
    let mut i: usize = 0;
    while i < children.len()
        invariant
            i <= children@.len(),
            forall|j: int| 0 <= j < i ==> !cluster_named(children@, j, name@),
        decreases children@.len() - i,
    {
        match &children[i] {
            RegisterCluster::Cluster(b) => {
                if str_eq(b.info().name.as_str(), name) {
                    return Some(i);
                }
            },
            RegisterCluster::Register(_) => {},
        }
        i += 1;
    }
    None
}

impl ClusterInfo {
    /// `r` is what [`ClusterInfo::validate`] answers. With validation
    /// enabled: under strict validation the name must be a dimable name; a
    /// `derivedFrom` must then be a derived name under strict validation;
    /// otherwise, under strict validation, the cluster must have a child.
    pub open spec fn validate_spec(self, lvl: ValidateLevel, r: Result<(), SvdError>) -> bool {
        let strict = lvl == ValidateLevel::Strict;
        if lvl == ValidateLevel::Disabled {
            r is Ok
        } else if strict && !dimable_name(self.name@) {
            r matches Err(SvdError::Name(e)) && name_error(self.name@, "name"@, e)
        } else if self.derived_from is Some {
            if strict && !derived_name(self.derived_from->0@) {
                r matches Err(SvdError::Name(_))
            } else {
                r is Ok
            }
        } else if strict && self.children@.len() == 0 {
            r == Err::<(), SvdError>(SvdError::Cluster(Error::EmptyCluster))
        } else {
            r is Ok
        }
    }

    /// The cluster after the head of a modification: the texts (empty ones
    /// counting as none), the name and the address offset.
    pub open spec fn modified_head(self, b: ClusterInfoBuilder) -> ClusterInfo {
        ClusterInfo {
            name: if b.name is Some { b.name->0 } else { self.name },
            description: if b.description is Some { nonempty_text(b.description) } else { self.description },
            alternate_cluster: if b.alternate_cluster is Some {
                nonempty_text(b.alternate_cluster)
            } else {
                self.alternate_cluster
            },
            header_struct_name: if b.header_struct_name is Some {
                nonempty_text(b.header_struct_name)
            } else {
                self.header_struct_name
            },
            address_offset: if b.address_offset is Some { b.address_offset->0 } else { self.address_offset },
            ..self
        }
    }

    /// Make a builder for [`ClusterInfo`]
    pub fn builder() -> (r: ClusterInfoBuilder)
        ensures
            r == ClusterInfoBuilder::empty(),
    {
        ClusterInfoBuilder::default()
    }

    /// Construct single [`Cluster`]
    pub fn single(self) -> (r: Cluster)
        ensures
            r == Cluster::Single(self),
    {
        Cluster::Single(self)
    }

    /// Construct [`Cluster`] array
    pub fn array(self, dim: DimElement) -> (r: Cluster)
        ensures
            r == Cluster::Array(self, dim),
    {
        Cluster::Array(self, dim)
    }

    /// Construct single [`Cluster`] or array
    pub fn maybe_array(self, dim: Option<DimElement>) -> (r: Cluster)
        ensures
            r == (match dim {
                Some(d) => Cluster::Array(self, d),
                None => Cluster::Single(self),
            }),
    {
        match dim {
            Some(d) => self.array(d),
            None => self.single(),
        }
    }

    /// Modify an existing [`ClusterInfo`] based on a [builder](ClusterInfoBuilder).
    /// A builder that derives from another cluster clears the children and
    /// the default properties. Otherwise the default properties are modified
    /// by those of the builder (a refusal stops the modification with that
    /// error) and set children replace the current ones.
    pub fn modify_from(&mut self, builder: ClusterInfoBuilder, lvl: ValidateLevel) -> (r: Result<(), SvdError>)
        ensures
            ({
                let h = old(self).modified_head(builder);
                let p = h.default_register_properties.modified(builder.default_register_properties);
                if builder.derived_from is Some {
                    &&& *final(self) == ClusterInfo {
                        derived_from: builder.derived_from,
                        children: final(self).children,
                        default_register_properties: RegisterProperties::empty(),
                        ..h
                    }
                    &&& final(self).children@.len() == 0
                    &&& final(self).validate_spec(lvl, r)
                } else if properties_outcome(p, lvl) is Err {
                    &&& r == properties_outcome(p, lvl)
                    &&& *final(self) == ClusterInfo { default_register_properties: p, ..h }
                } else {
                    &&& *final(self) == ClusterInfo {
                        default_register_properties: p,
                        children: if builder.children is Some { builder.children->0 } else { h.children },
                        ..h
                    }
                    &&& final(self).validate_spec(lvl, r)
                }
            }),
    {
        if let Some(name) = builder.name {
            self.name = name;
        }
        if builder.description.is_some() {
            self.description = empty_to_none(builder.description);
        }
        if builder.alternate_cluster.is_some() {
            self.alternate_cluster = empty_to_none(builder.alternate_cluster);
        }
        if builder.header_struct_name.is_some() {
            self.header_struct_name = empty_to_none(builder.header_struct_name);
        }
        if let Some(address_offset) = builder.address_offset {
            self.address_offset = address_offset;
        }
        if builder.derived_from.is_some() {
            self.derived_from = builder.derived_from;
            self.children = Vec::new();
            self.default_register_properties = RegisterProperties::new();
        } else {
            match self.default_register_properties.modify_from(builder.default_register_properties, lvl) {
                Ok(()) => {},
                Err(e) => return Err(e),
            }
            if let Some(children) = builder.children {
                self.children = children;
            }
        }
        self.validate(lvl)
    }

    /// Validate the [`ClusterInfo`]
    pub fn validate(&self, lvl: ValidateLevel) -> (r: Result<(), SvdError>)
        ensures
            self.validate_spec(lvl, r),
    {
        if lvl.is_disabled() {
            return Ok(());
        }
        if lvl.is_strict() {
            match check_dimable_name(self.name.as_str(), "name") {
                Ok(()) => {},
                Err(e) => return Err(SvdError::Name(e)),
            }
        }
        if let Some(name) = &self.derived_from {
            if lvl.is_strict() {
                match check_derived_name(name.as_str(), "derivedFrom") {
                    Ok(()) => {},
                    Err(e) => return Err(SvdError::Name(e)),
                }
            }
        } else if self.children.len() == 0 && lvl.is_strict() {
            return Err(SvdError::Cluster(Error::EmptyCluster));
        }
        Ok(())
    }

    /// Validate the [`ClusterInfo`] recursively
    pub fn validate_all(&self, lvl: ValidateLevel) -> (r: Result<(), SvdError>)
        ensures
            cluster_validate_all(*self, lvl, r),
        decreases self,
    {
        match self.default_register_properties.check(lvl) {
            Ok(()) => {},
            Err(e) => return Err(e),
        }
        let ghost ch = self.children@;
        let mut i: usize = 0;
        while i < self.children.len()
            invariant
                ch == self.children@,
                i <= ch.len(),
                self.default_register_properties.validate_spec(lvl) is Ok,
                forall|j: int| 0 <= j < i ==> !register_fails(ch[j], lvl),
            decreases ch.len() - i,
        {
            match &self.children[i] {
                RegisterCluster::Register(b) => {
                    match b.validate_all(lvl) {
                        Ok(()) => {},
                        Err(e) => {
                            assert(!rc_validate_all(ch[i as int], lvl, Ok(())));
                            assert(rc_validate_all(ch[i as int], lvl, Err(e)));
                            return Err(e);
                        },
                    }
                },
                RegisterCluster::Cluster(_) => {},
            }
            i += 1;
        }
        let mut i: usize = 0;
        while i < self.children.len()
            invariant
                ch == self.children@,
                i <= ch.len(),
                self.default_register_properties.validate_spec(lvl) is Ok,
                forall|j: int| 0 <= j < ch.len() ==> !register_fails(ch[j], lvl),
                forall|j: int| 0 <= j < i ==> !cluster_fails(ch[j], lvl),
            decreases ch.len() - i,
        {
            match &self.children[i] {
                RegisterCluster::Cluster(c) => {
                    let res = match &**c {
                        Cluster::Single(x) => x.validate_all(lvl),
                        Cluster::Array(x, d) => match d.validate(lvl) {
                            Ok(()) => x.validate_all(lvl),
                            Err(e) => Err(e),
                        },
                    };
                    match res {
                        Ok(()) => {},
                        Err(e) => {
                            assert(!rc_validate_all(ch[i as int], lvl, Ok(())));
                            assert(rc_validate_all(ch[i as int], lvl, Err(e)));
                            return Err(e);
                        },
                    }
                },
                RegisterCluster::Register(_) => {},
            }
            i += 1;
        }
        self.validate(lvl)
    }

    /// Returns all descendant registers, in document order
    pub fn reg_iter(&self) -> (r: Vec<&Register>)
        ensures
            r@.len() == seq_registers(self.children@).len(),
            forall|i: int| 0 <= i < r@.len() ==> *r@[i] == seq_registers(self.children@)[i],
    {
        self.all_registers()
    }

    /// Returns all descendant registers, in document order
    pub fn all_registers(&self) -> (r: Vec<&Register>)
        ensures
            r@.len() == seq_registers(self.children@).len(),
            forall|i: int| 0 <= i < r@.len() ==> *r@[i] == seq_registers(self.children@)[i],
    {
        let mut out: Vec<&Register> = Vec::new();
        collect_registers(&self.children, &mut out);
        out
    }

    /// Returns the child registers
    pub fn registers(&self) -> (r: Vec<&Register>)
        ensures
            r@.len() == child_registers(self.children@).len(),
            forall|i: int| 0 <= i < r@.len() ==> *r@[i] == child_registers(self.children@)[i],
    {
        registers_of(&self.children)
    }

    /// Returns the child clusters
    pub fn clusters(&self) -> (r: Vec<&Cluster>)
        ensures
            r@.len() == child_clusters(self.children@).len(),
            forall|i: int| 0 <= i < r@.len() ==> *r@[i] == child_clusters(self.children@)[i],
    {
        clusters_of(&self.children)
    }

    /// Get register by name: the first child register with that name.
    pub fn get_register(&self, name: &str) -> (r: Option<&Register>)
        ensures
            match r {
                Some(reg) => exists|i: int|
                    first_register_named(self.children@, name@, i) && self.children@[i]
                        == RegisterCluster::Register(Box::new(*reg)),
                None => forall|j: int| 0 <= j < self.children@.len() ==> !register_named(self.children@, j, name@),
            },
    {
        match find_register(&self.children, name) {
            Some(i) => match &self.children[i] {
                RegisterCluster::Register(b) => Some(&**b),
                RegisterCluster::Cluster(_) => None,
            },
            None => None,
        }
    }

    /// Get mutable register by name: the first child register with that name.
    pub fn get_mut_register(&mut self, name: &str) -> (r: Option<&mut Register>)
        ensures
            match r {
                Some(reg) => exists|i: int|
                    first_register_named(old(self).children@, name@, i) && old(self).children@[i]
                        == RegisterCluster::Register(Box::new(*reg)) && final(self).children@
                        == old(self).children@.update(i, RegisterCluster::Register(Box::new(*final(reg))))
                        && *final(self) == ClusterInfo { children: final(self).children, ..*old(self) },
                None => *final(self) == *old(self) && forall|j: int|
                    0 <= j < old(self).children@.len() ==> !register_named(old(self).children@, j, name@),
            },
    {
        match find_register(&self.children, name) {
            Some(i) => match &mut self.children[i] {
                RegisterCluster::Register(b) => Some(&mut **b),
                RegisterCluster::Cluster(_) => None,
            },
            None => None,
        }
    }

    /// Get cluster by name: the first child cluster with that name.
    pub fn get_cluster(&self, name: &str) -> (r: Option<&Cluster>)
        ensures
            match r {
                Some(c) => exists|i: int|
                    first_cluster_named(self.children@, name@, i) && self.children@[i] == RegisterCluster::Cluster(
                        Box::new(*c),
                    ),
                None => forall|j: int| 0 <= j < self.children@.len() ==> !cluster_named(self.children@, j, name@),
            },
    {
        match find_cluster(&self.children, name) {
            Some(i) => match &self.children[i] {
                RegisterCluster::Cluster(b) => Some(&**b),
                RegisterCluster::Register(_) => None,
            },
            None => None,
        }
    }

    /// Get mutable cluster by name: the first child cluster with that name.
    pub fn get_mut_cluster(&mut self, name: &str) -> (r: Option<&mut Cluster>)
        ensures
            match r {
                Some(c) => exists|i: int|
                    first_cluster_named(old(self).children@, name@, i) && old(self).children@[i]
                        == RegisterCluster::Cluster(Box::new(*c)) && final(self).children@
                        == old(self).children@.update(i, RegisterCluster::Cluster(Box::new(*final(c))))
                        && *final(self) == ClusterInfo { children: final(self).children, ..*old(self) },
                None => *final(self) == *old(self) && forall|j: int|
                    0 <= j < old(self).children@.len() ==> !cluster_named(old(self).children@, j, name@),
            },
    {
        match find_cluster(&self.children, name) {
            Some(i) => match &mut self.children[i] {
                RegisterCluster::Cluster(b) => Some(&mut **b),
                RegisterCluster::Register(_) => None,
            },
            None => None,
        }
    }
}

impl Cluster {
    /// Validate the [`Cluster`] recursively
    pub fn validate_all(&self, lvl: ValidateLevel) -> (r: Result<(), SvdError>)
        ensures
            cluster_validate_all(self.info_spec(), lvl, r),
        decreases self,
    {
        match self {
            Cluster::Single(x) => x.validate_all(lvl),
            Cluster::Array(x, d) => match d.validate(lvl) {
                Ok(()) => x.validate_all(lvl),
                Err(e) => Err(e),
            },
        }
    }
}

impl Name for ClusterInfo {
    open spec fn name_spec(&self) -> Seq<char> {
        self.name@
    }

    fn name(&self) -> (r: &str) {
        self.name.as_str()
    }
}

impl Description for ClusterInfo {
    open spec fn description_spec(&self) -> Option<Seq<char>> {
        opt_chars(self.description)
    }

    fn description(&self) -> (r: Option<&str>) {
        match &self.description {
            Some(d) => Some(d.as_str()),
            None => None,
        }
    }
}

} // verus!
