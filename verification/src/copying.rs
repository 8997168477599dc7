//! Copies of registers and clusters that keep every value: the copy has
//! the contents of the original, at any depth.
use vstd::prelude::*;

use crate::dimelement::opt_texts;
use crate::enumeratedvalues::clone_values;
use crate::field::clone_opt;
use crate::text::{owned, strings_view};
use crate::{Cluster, DimArrayIndex, DimElement, Field, Register, RegisterCluster};

verus! {

/// `b` has the contents of the dimensions `a`.
pub open spec fn dim_same(a: DimElement, b: DimElement) -> bool {
    &&& a.dim == b.dim
    &&& a.dim_increment == b.dim_increment
    &&& opt_texts(a.dim_index) == opt_texts(b.dim_index)
    &&& a.dim_name == b.dim_name
    &&& match (a.dim_array_index, b.dim_array_index) {
        (Some(x), Some(y)) => x.header_enum_name == y.header_enum_name && x.values@ == y.values@,
        (None, None) => true,
        _ => false,
    }
}

/// `b` has the contents of the field `a`: of the same kind, with the same
/// information and dimensions.
pub open spec fn field_same(a: Field, b: Field) -> bool {
    &&& a.info_spec()@ == b.info_spec()@
    &&& match (a, b) {
        (Field::Single(_), Field::Single(_)) => true,
        (Field::Array(_, d), Field::Array(_, e)) => dim_same(d, e),
        _ => false,
    }
}

/// `b` has the contents of the optional list of fields `a`.
pub open spec fn fields_same(a: Option<Vec<Field>>, b: Option<Vec<Field>>) -> bool {
    match (a, b) {
        (Some(x), Some(y)) => x@.len() == y@.len() && forall|i: int|
            0 <= i < x@.len() ==> field_same(x@[i], #[trigger] y@[i]),
        (None, None) => true,
        _ => false,
    }
}

/// `b` has the contents of the register `a`: of the same kind and
/// dimensions, with the same information and fields.
pub open spec fn register_same(a: Register, b: Register) -> bool {
    &&& match (a, b) {
        (Register::Single(_), Register::Single(_)) => true,
        (Register::Array(_, d), Register::Array(_, e)) => dim_same(d, e),
        _ => false,
    }
    &&& b.info_spec() == (crate::RegisterInfo { fields: b.info_spec().fields, ..a.info_spec() })
    &&& fields_same(a.info_spec().fields, b.info_spec().fields)
}

/// `b` has the contents of the element `a`, at any depth.
pub open spec fn element_same(a: RegisterCluster, b: RegisterCluster) -> bool
    decreases a,
{
    match a {
        RegisterCluster::Register(x) => b matches RegisterCluster::Register(y) && register_same(*x, *y),
        RegisterCluster::Cluster(c) => b matches RegisterCluster::Cluster(d) && match (*c, *d) {
            (Cluster::Single(ci), Cluster::Single(di)) => di == (crate::ClusterInfo {
                children: di.children,
                ..ci
            }) && elements_same(ci.children@, di.children@),
            (Cluster::Array(ci, x), Cluster::Array(di, y)) => dim_same(x, y) && di == (crate::ClusterInfo {
                children: di.children,
                ..ci
            }) && elements_same(ci.children@, di.children@),
            _ => false,
        },
    }
}

/// `t` has the contents of the elements `s`, one for one.
pub open spec fn elements_same(s: Seq<RegisterCluster>, t: Seq<RegisterCluster>) -> bool
    decreases s,
{
    &&& s.len() == t.len()
    &&& forall|i: int| 0 <= i < s.len() ==> element_same(s[i], #[trigger] t[i])
}

/// `b` has the contents of the optional list of elements `a`.
pub open spec fn registers_same(a: Option<Vec<RegisterCluster>>, b: Option<Vec<RegisterCluster>>) -> bool {
    match (a, b) {
        (Some(x), Some(y)) => elements_same(x@, y@),
        (None, None) => true,
        _ => false,
    }
}

/// A copy of a list of texts.
fn copy_texts(v: &Vec<String>) -> (r: Vec<String>)
    ensures
        strings_view(r@) == strings_view(v@),
{
    let mut out: Vec<String> = Vec::new();
    let mut i: usize = 0;
    while i < v.len()
        invariant
            i <= v@.len(),
            out@.len() == i,
            forall|j: int| 0 <= j < i ==> (#[trigger] out@[j])@ == v@[j]@,
        decreases v@.len() - i,
    {
        out.push(owned(v[i].as_str()));
        i += 1;
    }
    assert(strings_view(out@) =~= strings_view(v@));
    out
}

/// A copy of dimensions (see [`dim_same`]).
pub fn copy_dim(d: &DimElement) -> (r: DimElement)
    ensures
        dim_same(*d, r),
{
    DimElement {
        dim: d.dim,
        dim_increment: d.dim_increment,
        dim_index: match &d.dim_index {
            Some(v) => Some(copy_texts(v)),
            None => None,
        },
        dim_name: clone_opt(&d.dim_name),
        dim_array_index: match &d.dim_array_index {
            Some(x) => Some(DimArrayIndex { header_enum_name: clone_opt(&x.header_enum_name), values: clone_values(&x.values) }),
            None => None,
        },
    }
}

/// A copy of a field (see [`field_same`]).
pub fn copy_field(f: &Field) -> (r: Field)
    ensures
        field_same(*f, r),
{
    match f {
        Field::Single(i) => Field::Single(i.clone()),
        Field::Array(i, d) => Field::Array(i.clone(), copy_dim(d)),
    }
}

/// A copy of an optional list of fields (see [`fields_same`]).
pub fn copy_fields(o: &Option<Vec<Field>>) -> (r: Option<Vec<Field>>)
    ensures
        fields_same(*o, r),
{
    match o {
        None => None,
        Some(v) => {
            let mut out: Vec<Field> = Vec::new();
            let mut i: usize = 0;
            while i < v.len()
                invariant
                    i <= v@.len(),
                    out@.len() == i,
                    forall|j: int| 0 <= j < i ==> field_same(v@[j], #[trigger] out@[j]),
                decreases v@.len() - i,
            {
                out.push(copy_field(&v[i]));
                i += 1;
            }
            Some(out)
        },
    }
}

/// A copy of a register (see [`register_same`]).
pub fn copy_register(x: &Register) -> (r: Register)
    ensures
        register_same(*x, r),
{
    let mut info = x.info().clone();
    info.fields = copy_fields(&x.info().fields);
    match x {
        Register::Single(_) => Register::Single(info),
        Register::Array(_, d) => Register::Array(info, copy_dim(d)),
    }
}

/// A copy of a register or cluster, at any depth (see [`element_same`]).
pub fn copy_element(rc: &RegisterCluster) -> (r: RegisterCluster)
    ensures
        element_same(*rc, r),
    decreases rc,
{
    let ghost a0 = *rc;
    match rc {
        RegisterCluster::Register(b) => RegisterCluster::Register(Box::new(copy_register(&**b))),
        RegisterCluster::Cluster(c) => {
            let cl = match &**c {
                Cluster::Single(ci) => {
                    proof {
                        assert(decreases_to!(a0 => ci.children));
                    }
                    let mut di = ci.clone();
                    di.children = copy_elements(&ci.children);
                    Cluster::Single(di)
                },
                Cluster::Array(ci, d) => {
                    proof {
                        assert(decreases_to!(a0 => ci.children));
                    }
                    let mut di = ci.clone();
                    di.children = copy_elements(&ci.children);
                    Cluster::Array(di, copy_dim(d))
                },
            };
            RegisterCluster::Cluster(Box::new(cl))
        },
    }
}

/// A copy of a list of registers and clusters, at any depth (see
/// [`elements_same`]).
pub fn copy_elements(v: &Vec<RegisterCluster>) -> (r: Vec<RegisterCluster>)
    ensures
        elements_same(v@, r@),
    decreases v,
{
    let mut out: Vec<RegisterCluster> = Vec::new();
    let mut i: usize = 0;
    while i < v.len()
        invariant
            i <= v@.len(),
            out@.len() == i,
            forall|j: int| 0 <= j < i ==> element_same(v@[j], #[trigger] out@[j]),
        decreases v@.len() - i,
    {
        proof {
            assert(decreases_to!(v => v@));
            assert(decreases_to!(v@ => v@[i as int]));
        }
        out.push(copy_element(&v[i]));
        i += 1;
    }
    out
}

/// A copy of an optional list of registers and clusters, at any depth
/// (see [`registers_same`]).
pub fn copy_registers(o: &Option<Vec<RegisterCluster>>) -> (r: Option<Vec<RegisterCluster>>)
    ensures
        registers_same(*o, r),
{
    match o {
        Some(v) => Some(copy_elements(v)),
        None => None,
    }
}

} // verus!
