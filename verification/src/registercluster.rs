use vstd::prelude::*;

use crate::{Cluster, Register};

verus! {

/// A [cluster](crate::Cluster) or a [register](crate::Register)
#[derive(Debug)]
pub enum RegisterCluster {
    /// Register
    Register(Box<Register>),
    /// Cluster
    Cluster(Box<Cluster>),
}

impl Clone for RegisterCluster {
    fn clone(&self) -> (r: Self)
        ensures
            r.name_spec() == self.name_spec(),
            (r is Register) == (self is Register),
    {
        crate::cluster::clone_element(self)
    }
}

impl From<Register> for RegisterCluster {
    fn from(reg: Register) -> (r: Self)
        ensures
            r == RegisterCluster::Register(Box::new(reg)),
    {
        RegisterCluster::Register(Box::new(reg))
    }
}

impl vstd::std_specs::convert::FromSpecImpl<Register> for RegisterCluster {
    open spec fn obeys_from_spec() -> bool {
        true
    }

    open spec fn from_spec(reg: Register) -> Self {
        RegisterCluster::Register(Box::new(reg))
    }
}

impl From<Cluster> for RegisterCluster {
    fn from(cluster: Cluster) -> (r: Self)
        ensures
            r == RegisterCluster::Cluster(Box::new(cluster)),
    {
        RegisterCluster::Cluster(Box::new(cluster))
    }
}

impl vstd::std_specs::convert::FromSpecImpl<Cluster> for RegisterCluster {
    open spec fn obeys_from_spec() -> bool {
        true
    }

    open spec fn from_spec(cluster: Cluster) -> Self {
        RegisterCluster::Cluster(Box::new(cluster))
    }
}

impl From<Box<Register>> for RegisterCluster {
    fn from(reg: Box<Register>) -> (r: Self)
        ensures
            r == RegisterCluster::Register(reg),
    {
        RegisterCluster::Register(reg)
    }
}

impl vstd::std_specs::convert::FromSpecImpl<Box<Register>> for RegisterCluster {
    open spec fn obeys_from_spec() -> bool {
        true
    }

    open spec fn from_spec(reg: Box<Register>) -> Self {
        RegisterCluster::Register(reg)
    }
}

impl From<Box<Cluster>> for RegisterCluster {
    fn from(cluster: Box<Cluster>) -> (r: Self)
        ensures
            r == RegisterCluster::Cluster(cluster),
    {
        RegisterCluster::Cluster(cluster)
    }
}

impl vstd::std_specs::convert::FromSpecImpl<Box<Cluster>> for RegisterCluster {
    open spec fn obeys_from_spec() -> bool {
        true
    }

    open spec fn from_spec(cluster: Box<Cluster>) -> Self {
        RegisterCluster::Cluster(cluster)
    }
}

impl RegisterCluster {
    /// The name of the register or cluster.
    pub open spec fn name_spec(&self) -> String {
        match self {
            RegisterCluster::Register(r) => r.info_spec().name,
            RegisterCluster::Cluster(c) => c.info_spec().name,
        }
    }

    /// Name of register or cluster
    pub fn name(&self) -> (r: &String)
        ensures
            *r == self.name_spec(),
    {
        match self {
            RegisterCluster::Register(r) => &r.info().name,
            RegisterCluster::Cluster(c) => &c.info().name,
        }
    }

    /// Description of register or cluster
    pub fn description(&self) -> (r: &Option<String>)
        ensures
            *r == match self {
                RegisterCluster::Register(r) => r.info_spec().description,
                RegisterCluster::Cluster(c) => c.info_spec().description,
            },
    {
        match self {
            RegisterCluster::Register(r) => &r.info().description,
            RegisterCluster::Cluster(c) => &c.info().description,
        }
    }

    /// Specify the name from which to inherit data
    pub fn derived_from(&self) -> (r: &Option<String>)
        ensures
            *r == match self {
                RegisterCluster::Register(r) => r.info_spec().derived_from,
                RegisterCluster::Cluster(c) => c.info_spec().derived_from,
            },
    {
        match self {
            RegisterCluster::Register(r) => &r.info().derived_from,
            RegisterCluster::Cluster(c) => &c.info().derived_from,
        }
    }

    /// Address offset of register or cluster
    pub fn address_offset(&self) -> (r: u32)
        ensures
            r == match self {
                RegisterCluster::Register(r) => r.info_spec().address_offset,
                RegisterCluster::Cluster(c) => c.info_spec().address_offset,
            },
    {
        match self {
            RegisterCluster::Register(r) => r.info().address_offset,
            RegisterCluster::Cluster(c) => c.info().address_offset,
        }
    }
}

/// The registers among `s`, in order.
pub open spec fn child_registers(s: Seq<RegisterCluster>) -> Seq<Register>
    decreases s.len(),
{
    if s.len() == 0 {
        Seq::empty()
    } else {
        let rest = child_registers(s.drop_last());
        match s.last() {
            RegisterCluster::Register(r) => rest.push(*r),
            RegisterCluster::Cluster(_) => rest,
        }
    }
}

/// The clusters among `s`, in order.
pub open spec fn child_clusters(s: Seq<RegisterCluster>) -> Seq<Cluster>
    decreases s.len(),
{
    if s.len() == 0 {
        Seq::empty()
    } else {
        let rest = child_clusters(s.drop_last());
        match s.last() {
            RegisterCluster::Cluster(c) => rest.push(*c),
            RegisterCluster::Register(_) => rest,
        }
    }
}

/// Every register that `rc` holds, at any depth, in document order.
pub open spec fn rc_registers(rc: RegisterCluster) -> Seq<Register>
    decreases rc,
{
    match rc {
        RegisterCluster::Register(r) => seq![*r],
        RegisterCluster::Cluster(c) => match *c {
            Cluster::Single(ci) => seq_registers(ci.children@),
            Cluster::Array(ci, _) => seq_registers(ci.children@),
        },
    }
}

/// Every register that the elements of `s` hold, at any depth, in document
/// order.
pub open spec fn seq_registers(s: Seq<RegisterCluster>) -> Seq<Register>
    decreases s,
{
    if s.len() == 0 {
        Seq::empty()
    } else {
        rc_registers(s[0]) + seq_registers(s.subrange(1, s.len() as int))
    }
}

/// The registers among `s`, in order.
pub fn registers_of(s: &Vec<RegisterCluster>) -> (r: Vec<&Register>)
    ensures
        r@.len() == child_registers(s@).len(),
        forall|i: int| 0 <= i < r@.len() ==> *r@[i] == child_registers(s@)[i],
{
    let mut out: Vec<&Register> = Vec::new();
    let mut i: usize = 0;
    while i < s.len()
        invariant
            i <= s@.len(),
            out@.len() == child_registers(s@.take(i as int)).len(),
            forall|k: int| 0 <= k < out@.len() ==> *out@[k] == child_registers(s@.take(i as int))[k],
        decreases s@.len() - i,
    {
        assert(s@.take(i + 1).drop_last() =~= s@.take(i as int));
        match &s[i] {
            RegisterCluster::Register(reg) => {
                out.push(&**reg);
            },
            RegisterCluster::Cluster(_) => {},
        }
        i += 1;
    }
    assert(s@.take(s@.len() as int) =~= s@);
    out
}

/// The clusters among `s`, in order.
pub fn clusters_of(s: &Vec<RegisterCluster>) -> (r: Vec<&Cluster>)
    ensures
        r@.len() == child_clusters(s@).len(),
        forall|i: int| 0 <= i < r@.len() ==> *r@[i] == child_clusters(s@)[i],
{
    let mut out: Vec<&Cluster> = Vec::new();
    let mut i: usize = 0;
    while i < s.len()
        invariant
            i <= s@.len(),
            out@.len() == child_clusters(s@.take(i as int)).len(),
            forall|k: int| 0 <= k < out@.len() ==> *out@[k] == child_clusters(s@.take(i as int))[k],
        decreases s@.len() - i,
    {
        assert(s@.take(i + 1).drop_last() =~= s@.take(i as int));
        match &s[i] {
            RegisterCluster::Cluster(c) => {
                out.push(&**c);
            },
            RegisterCluster::Register(_) => {},
        }
        i += 1;
    }
    assert(s@.take(s@.len() as int) =~= s@);
    out
}

/// Appends every register that the elements of `s` hold, at any depth, in
/// document order.
pub fn collect_registers<'a>(s: &'a Vec<RegisterCluster>, out: &mut Vec<&'a Register>)
    ensures
        final(out)@.len() == old(out)@.len() + seq_registers(s@).len(),
        forall|i: int| 0 <= i < old(out)@.len() ==> final(out)@[i] == old(out)@[i],
        forall|i: int|
            0 <= i < seq_registers(s@).len() ==> *final(out)@[old(out)@.len() + i] == seq_registers(s@)[i],
    decreases s@,
{
    let mut i: usize = 0;
    while i < s.len()
        invariant
            i <= s@.len(),
            old(out)@.len() <= out@.len(),
            forall|k: int| 0 <= k < old(out)@.len() ==> out@[k] == old(out)@[k],
            out@.len() == old(out)@.len() + seq_registers(s@.take(i as int)).len(),
            forall|k: int|
                0 <= k < seq_registers(s@.take(i as int)).len() ==> *out@[old(out)@.len() + k]
                    == seq_registers(s@.take(i as int))[k],
        decreases s@.len() - i,
    {
        proof {
            lemma_seq_registers_split(s@, i as int);
        }
        match &s[i] {
            RegisterCluster::Register(reg) => {
                out.push(&**reg);
            },
            RegisterCluster::Cluster(c) => {
                let ci = c.info();
                assert(rc_registers(s@[i as int]) == seq_registers(ci.children@));
                collect_registers(&ci.children, out);
            },
        }
        i += 1;
    }
    assert(s@.take(s@.len() as int) =~= s@);
}

/// Splitting `s` after `i` elements splits its registers.
pub proof fn lemma_seq_registers_split(s: Seq<RegisterCluster>, i: int)
    requires
        0 <= i < s.len(),
    ensures
        seq_registers(s.take(i + 1)) == seq_registers(s.take(i)) + rc_registers(s[i]),
{
    lemma_seq_registers_append(s.take(i), seq![s[i]]);
    assert(s.take(i) + seq![s[i]] =~= s.take(i + 1));
    let one = seq![s[i]];
    assert(one.subrange(1, one.len() as int) =~= Seq::<RegisterCluster>::empty());
    assert(seq_registers(Seq::<RegisterCluster>::empty()) =~= Seq::<Register>::empty());
    assert(one[0] == s[i]);
    assert(seq_registers(one) =~= rc_registers(s[i]) + seq_registers(one.subrange(1, one.len() as int)));
    assert(seq_registers(one) =~= rc_registers(s[i]));
}

/// The registers of a concatenation are those of each part.
pub proof fn lemma_seq_registers_append(a: Seq<RegisterCluster>, b: Seq<RegisterCluster>)
    ensures
        seq_registers(a + b) == seq_registers(a) + seq_registers(b),
    decreases a.len(),
{
    if a.len() == 0 {
        assert(a + b =~= b);
    } else {
        assert((a + b).subrange(1, (a + b).len() as int) =~= a.subrange(1, a.len() as int) + b);
        lemma_seq_registers_append(a.subrange(1, a.len() as int), b);
        assert((a + b)[0] == a[0]);
    }
}

} // verus!
