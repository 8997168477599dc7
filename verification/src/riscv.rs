pub use super::Interrupt;

/// Description of HARTs in the device.
pub mod hart;
pub use hart::Hart;

/// Description of interrupt priority levels in the device.
pub mod priority;
pub use priority::Priority;

/// Description of exception sources in the device.
pub mod exception;
pub use exception::Exception;

use vstd::prelude::*;

use crate::text::owned;
use crate::{is_uninit, BuildError, SvdError, ValidateLevel};

verus! {

/// RISC-V specific descriptions.
#[derive(Debug, PartialEq, Eq)]
pub struct Riscv {
    /// Name of the CLINT peripheral
    pub clint: Option<String>,
    /// Name of the PLIC peripheral
    pub plic: Option<String>,
    /// Core interrupt enumeration values
    pub core_interrupts: Vec<Interrupt>,
    /// Priority level enumeration values
    pub priorities: Vec<Priority>,
    /// HART enumeration values
    pub harts: Vec<Hart>,
}

/// Builder for [`Riscv`]
#[derive(Debug, PartialEq, Eq)]
pub struct RiscvBuilder {
    /// The name of the CLINT peripheral, if set.
    pub clint: Option<String>,
    /// The name of the PLIC peripheral, if set.
    pub plic: Option<String>,
    /// The core interrupts, if set.
    pub core_interrupts: Option<Vec<Interrupt>>,
    /// The priority levels, if set.
    pub priorities: Option<Vec<Priority>>,
    /// The HARTs, if set.
    pub harts: Option<Vec<Hart>>,
}

impl Default for RiscvBuilder {
    fn default() -> (r: Self)
        ensures
            r == (RiscvBuilder { clint: None, plic: None, core_interrupts: None, priorities: None, harts: None }),
    {
        RiscvBuilder { clint: None, plic: None, core_interrupts: None, priorities: None, harts: None }
    }
}

impl From<Riscv> for RiscvBuilder {
    fn from(riscv: Riscv) -> (r: Self)
        ensures
            r == Self::from_riscv(riscv),
    {
        RiscvBuilder {
            clint: riscv.clint,
            plic: riscv.plic,
            core_interrupts: Some(riscv.core_interrupts),
            priorities: Some(riscv.priorities),
            harts: Some(riscv.harts),
        }
    }
}

impl vstd::std_specs::convert::FromSpecImpl<Riscv> for RiscvBuilder {
    open spec fn obeys_from_spec() -> bool {
        true
    }

    open spec fn from_spec(riscv: Riscv) -> Self {
        Self::from_riscv(riscv)
    }
}

impl RiscvBuilder {
    /// The builder that holds every list of `riscv`.
    pub open spec fn from_riscv(riscv: Riscv) -> Self {
        RiscvBuilder {
            clint: riscv.clint,
            plic: riscv.plic,
            core_interrupts: Some(riscv.core_interrupts),
            priorities: Some(riscv.priorities),
            harts: Some(riscv.harts),
        }
    }

    /// Set the name of the CLINT peripheral
    pub fn clint(self, clint: Option<String>) -> (r: Self)
        ensures
            r == (RiscvBuilder { clint, ..self }),
    {
        RiscvBuilder { clint, ..self }
    }

    /// Set the name of the PLIC peripheral
    pub fn plic(self, plic: Option<String>) -> (r: Self)
        ensures
            r == (RiscvBuilder { plic, ..self }),
    {
        RiscvBuilder { plic, ..self }
    }

    /// Set the core interrupt enumeration values
    pub fn core_interrupts(self, core_interrupts: Vec<Interrupt>) -> (r: Self)
        ensures
            r == (RiscvBuilder { core_interrupts: Some(core_interrupts), ..self }),
    {
        RiscvBuilder { core_interrupts: Some(core_interrupts), ..self }
    }

    /// Set the priority level enumeration values
    pub fn priorities(self, priorities: Vec<Priority>) -> (r: Self)
        ensures
            r == (RiscvBuilder { priorities: Some(priorities), ..self }),
    {
        RiscvBuilder { priorities: Some(priorities), ..self }
    }

    /// Set the HART enumeration values
    pub fn harts(self, harts: Vec<Hart>) -> (r: Self)
        ensures
            r == (RiscvBuilder { harts: Some(harts), ..self }),
    {
        RiscvBuilder { harts: Some(harts), ..self }
    }

    /// Validate and build a [`Riscv`]: the core interrupts, then the
    /// priorities, then the HARTs must be set.
    pub fn build(self, lvl: ValidateLevel) -> (r: Result<Riscv, SvdError>)
        ensures
            self.core_interrupts is None ==> is_uninit(r, "core_interrupts"@),
            self.core_interrupts is Some && self.priorities is None ==> is_uninit(r, "priorities"@),
            self.core_interrupts is Some && self.priorities is Some && self.harts is None ==> is_uninit(
                r,
                "harts"@,
            ),
            self.core_interrupts is Some && self.priorities is Some && self.harts is Some ==> r
                == Ok::<Riscv, SvdError>(
                Riscv {
                    clint: self.clint,
                    plic: self.plic,
                    core_interrupts: self.core_interrupts->0,
                    priorities: self.priorities->0,
                    harts: self.harts->0,
                },
            ),
    {
        let core_interrupts = match self.core_interrupts {
            Some(v) => v,
            None => return Err(SvdError::Build(BuildError::Uninitialized(owned("core_interrupts")))),
        };
        let priorities = match self.priorities {
            Some(v) => v,
            None => return Err(SvdError::Build(BuildError::Uninitialized(owned("priorities")))),
        };
        let harts = match self.harts {
            Some(v) => v,
            None => return Err(SvdError::Build(BuildError::Uninitialized(owned("harts")))),
        };
        let riscv = Riscv { clint: self.clint, plic: self.plic, core_interrupts, priorities, harts };
        match riscv.validate(lvl) {
            Ok(()) => Ok(riscv),
            Err(e) => Err(e),
        }
    }
}

impl Riscv {
    /// Make a builder for [`Riscv`]
    pub fn builder() -> (r: RiscvBuilder)
        ensures
            r == (RiscvBuilder { clint: None, plic: None, core_interrupts: None, priorities: None, harts: None }),
    {
        RiscvBuilder::default()
    }

    /// Modify an existing [`Riscv`] based on a [builder](RiscvBuilder): each
    /// list that the builder sets replaces the current one.
    pub fn modify_from(&mut self, builder: RiscvBuilder, lvl: ValidateLevel) -> (r: Result<(), SvdError>)
        ensures
            *final(self) == (Riscv {
                clint: if builder.clint is Some { builder.clint } else { old(self).clint },
                plic: if builder.plic is Some { builder.plic } else { old(self).plic },
                core_interrupts: if builder.core_interrupts is Some {
                    builder.core_interrupts->0
                } else {
                    old(self).core_interrupts
                },
                priorities: if builder.priorities is Some { builder.priorities->0 } else { old(self).priorities },
                harts: if builder.harts is Some { builder.harts->0 } else { old(self).harts },
            }),
            r is Ok,
    {
        if builder.clint.is_some() {
            self.clint = builder.clint;
        }
        if builder.plic.is_some() {
            self.plic = builder.plic;
        }
        if let Some(core_interrupts) = builder.core_interrupts {
            self.core_interrupts = core_interrupts;
        }
        if let Some(priorities) = builder.priorities {
            self.priorities = priorities;
        }
        if let Some(harts) = builder.harts {
            self.harts = harts;
        }
        self.validate(lvl)
    }

    /// Validate the [`Riscv`]: each priority level and each HART in turn;
    /// core interrupts, priority levels and HARTs carry no rules, so every
    /// description is valid.
    pub fn validate(&self, lvl: ValidateLevel) -> (r: Result<(), SvdError>)
        ensures
            r is Ok,
    {
        let mut i: usize = 0;
        while i < self.priorities.len()
            invariant
                i <= self.priorities@.len(),
            decreases self.priorities@.len() - i,
        {
            match self.priorities[i].validate(lvl) {
                Ok(()) => {},
                Err(e) => return Err(e),
            }
            i += 1;
        }
        let mut i: usize = 0;
        while i < self.harts.len()
            invariant
                i <= self.harts@.len(),
            decreases self.harts@.len() - i,
        {
            match self.harts[i].validate(lvl) {
                Ok(()) => {},
                Err(e) => return Err(e),
            }
            i += 1;
        }
        Ok(())
    }
}

} // verus!
