use vstd::prelude::*;

use crate::text::owned;
use crate::{is_uninit, BuildError, Endian, SvdError, ValidateLevel};

verus! {

/// CPU describes the processor included in the microcontroller device.
#[derive(Clone, Debug, PartialEq, Eq)]
pub struct Cpu {
    /// Processor architecture
    pub name: String,
    /// Define the HW revision of the processor
    pub revision: String,
    /// Define the endianness of the processor
    pub endian: Endian,
    /// Indicate whether the processor is equipped with a memory protection unit (MPU)
    pub mpu_present: bool,
    /// Indicate whether the processor is equipped with a hardware floating point unit (FPU)
    pub fpu_present: bool,
    /// Indicate whether the processor is equipped with a double precision floating point unit.
    pub fpu_double_precision: Option<bool>,
    /// Indicates whether the processor implements the optional SIMD DSP extensions (DSP)
    pub dsp_present: Option<bool>,
    /// Indicate whether the processor has an instruction cache
    pub icache_present: Option<bool>,
    /// Indicate whether the processor has a data cache
    pub dcache_present: Option<bool>,
    /// Indicate whether the processor has an instruction tightly coupled memory
    pub itcm_present: Option<bool>,
    /// Indicate whether the processor has a data tightly coupled memory
    pub dtcm_present: Option<bool>,
    /// Indicate whether the Vector Table Offset Register (VTOR) is implemented.
    pub vtor_present: Option<bool>,
    /// Define the number of bits available in the Nested Vectored Interrupt Controller (NVIC) for configuring priority
    pub nvic_priority_bits: u32,
    /// Indicate whether the processor implements a vendor-specific System Tick Timer
    pub has_vendor_systick: bool,
    /// Add 1 to the highest interrupt number and specify this number in here
    pub device_num_interrupts: Option<u32>,
    /// Indicate the amount of regions in the Security Attribution Unit (SAU)
    pub sau_num_regions: Option<u32>,
}

/// Builder for [`Cpu`]
#[derive(Clone, Debug, PartialEq, Eq)]
pub struct CpuBuilder {
    /// Processor architecture
    pub name: Option<String>,
    /// Define the HW revision of the processor
    pub revision: Option<String>,
    /// Define the endianness of the processor
    pub endian: Option<Endian>,
    /// Indicate whether the processor is equipped with a memory protection unit (MPU)
    pub mpu_present: Option<bool>,
    /// Indicate whether the processor is equipped with a hardware floating point unit (FPU)
    pub fpu_present: Option<bool>,
    /// Indicate whether the processor is equipped with a double precision floating point unit.
    pub fpu_double_precision: Option<bool>,
    /// Indicates whether the processor implements the optional SIMD DSP extensions (DSP)
    pub dsp_present: Option<bool>,
    /// Indicate whether the processor has an instruction cache
    pub icache_present: Option<bool>,
    /// Indicate whether the processor has a data cache
    pub dcache_present: Option<bool>,
    /// Indicate whether the processor has an instruction tightly coupled memory
    pub itcm_present: Option<bool>,
    /// Indicate whether the processor has a data tightly coupled memory
    pub dtcm_present: Option<bool>,
    /// Indicate whether the Vector Table Offset Register (VTOR) is implemented.
    pub vtor_present: Option<bool>,
    /// Define the number of bits available in the Nested Vectored Interrupt Controller (NVIC) for configuring priority
    pub nvic_priority_bits: Option<u32>,
    /// Indicate whether the processor implements a vendor-specific System Tick Timer
    pub has_vendor_systick: Option<bool>,
    /// Add 1 to the highest interrupt number and specify this number in here
    pub device_num_interrupts: Option<u32>,
    /// Indicate the amount of regions in the Security Attribution Unit (SAU)
    pub sau_num_regions: Option<u32>,
}

impl Default for CpuBuilder {
    fn default() -> (r: Self)
        ensures
            r == Self::empty(),
    {
        CpuBuilder { name: None, revision: None, endian: None, mpu_present: None, fpu_present: None, fpu_double_precision: None, dsp_present: None, icache_present: None, dcache_present: None, itcm_present: None, dtcm_present: None, vtor_present: None, nvic_priority_bits: None, has_vendor_systick: None, device_num_interrupts: None, sau_num_regions: None }
    }
}

impl From<Cpu> for CpuBuilder {
    fn from(c: Cpu) -> (r: Self)
        ensures
            r == Self::from_cpu(c),
    {
        CpuBuilder { name: Some(c.name), revision: Some(c.revision), endian: Some(c.endian), mpu_present: Some(c.mpu_present), fpu_present: Some(c.fpu_present), fpu_double_precision: c.fpu_double_precision, dsp_present: c.dsp_present, icache_present: c.icache_present, dcache_present: c.dcache_present, itcm_present: c.itcm_present, dtcm_present: c.dtcm_present, vtor_present: c.vtor_present, nvic_priority_bits: Some(c.nvic_priority_bits), has_vendor_systick: Some(c.has_vendor_systick), device_num_interrupts: c.device_num_interrupts, sau_num_regions: c.sau_num_regions }
    }
}

impl vstd::std_specs::convert::FromSpecImpl<Cpu> for CpuBuilder {
    open spec fn obeys_from_spec() -> bool {
        true
    }

    open spec fn from_spec(c: Cpu) -> Self {
        Self::from_cpu(c)
    }
}

impl CpuBuilder {
    /// The builder that sets nothing.
    pub open spec fn empty() -> Self {
        CpuBuilder { name: None, revision: None, endian: None, mpu_present: None, fpu_present: None, fpu_double_precision: None, dsp_present: None, icache_present: None, dcache_present: None, itcm_present: None, dtcm_present: None, vtor_present: None, nvic_priority_bits: None, has_vendor_systick: None, device_num_interrupts: None, sau_num_regions: None }
    }

    /// The builder that holds every value of `c`.
    pub open spec fn from_cpu(c: Cpu) -> Self {
        CpuBuilder { name: Some(c.name), revision: Some(c.revision), endian: Some(c.endian), mpu_present: Some(c.mpu_present), fpu_present: Some(c.fpu_present), fpu_double_precision: c.fpu_double_precision, dsp_present: c.dsp_present, icache_present: c.icache_present, dcache_present: c.dcache_present, itcm_present: c.itcm_present, dtcm_present: c.dtcm_present, vtor_present: c.vtor_present, nvic_priority_bits: Some(c.nvic_priority_bits), has_vendor_systick: Some(c.has_vendor_systick), device_num_interrupts: c.device_num_interrupts, sau_num_regions: c.sau_num_regions }
    }

    /// Set the name of the cpu.
    pub fn name(self, value: String) -> (r: Self)
        ensures
            r == (CpuBuilder { name: Some(value), ..self }),
    {
        CpuBuilder { name: Some(value), ..self }
    }

    /// Set the revision of the cpu.
    pub fn revision(self, value: String) -> (r: Self)
        ensures
            r == (CpuBuilder { revision: Some(value), ..self }),
    {
        CpuBuilder { revision: Some(value), ..self }
    }

    /// Set the endian of the cpu.
    pub fn endian(self, value: Endian) -> (r: Self)
        ensures
            r == (CpuBuilder { endian: Some(value), ..self }),
    {
        CpuBuilder { endian: Some(value), ..self }
    }

    /// Set the mpu_present of the cpu.
    pub fn mpu_present(self, value: bool) -> (r: Self)
        ensures
            r == (CpuBuilder { mpu_present: Some(value), ..self }),
    {
        CpuBuilder { mpu_present: Some(value), ..self }
    }

    /// Set the fpu_present of the cpu.
    pub fn fpu_present(self, value: bool) -> (r: Self)
        ensures
            r == (CpuBuilder { fpu_present: Some(value), ..self }),
    {
        CpuBuilder { fpu_present: Some(value), ..self }
    }

    /// Set the fpu_double_precision of the cpu.
    pub fn fpu_double_precision(self, value: Option<bool>) -> (r: Self)
        ensures
            r == (CpuBuilder { fpu_double_precision: value, ..self }),
    {
        CpuBuilder { fpu_double_precision: value, ..self }
    }

    /// Set the dsp_present of the cpu.
    pub fn dsp_present(self, value: Option<bool>) -> (r: Self)
        ensures
            r == (CpuBuilder { dsp_present: value, ..self }),
    {
        CpuBuilder { dsp_present: value, ..self }
    }

    /// Set the icache_present of the cpu.
    pub fn icache_present(self, value: Option<bool>) -> (r: Self)
        ensures
            r == (CpuBuilder { icache_present: value, ..self }),
    {
        CpuBuilder { icache_present: value, ..self }
    }

    /// Set the dcache_present of the cpu.
    pub fn dcache_present(self, value: Option<bool>) -> (r: Self)
        ensures
            r == (CpuBuilder { dcache_present: value, ..self }),
    {
        CpuBuilder { dcache_present: value, ..self }
    }

    /// Set the itcm_present of the cpu.
    pub fn itcm_present(self, value: Option<bool>) -> (r: Self)
        ensures
            r == (CpuBuilder { itcm_present: value, ..self }),
    {
        CpuBuilder { itcm_present: value, ..self }
    }

    /// Set the dtcm_present of the cpu.
    pub fn dtcm_present(self, value: Option<bool>) -> (r: Self)
        ensures
            r == (CpuBuilder { dtcm_present: value, ..self }),
    {
        CpuBuilder { dtcm_present: value, ..self }
    }

    /// Set the vtor_present of the cpu.
    pub fn vtor_present(self, value: Option<bool>) -> (r: Self)
        ensures
            r == (CpuBuilder { vtor_present: value, ..self }),
    {
        CpuBuilder { vtor_present: value, ..self }
    }

    /// Set the nvic_priority_bits of the cpu.
    pub fn nvic_priority_bits(self, value: u32) -> (r: Self)
        ensures
            r == (CpuBuilder { nvic_priority_bits: Some(value), ..self }),
    {
        CpuBuilder { nvic_priority_bits: Some(value), ..self }
    }

    /// Set the has_vendor_systick of the cpu.
    pub fn has_vendor_systick(self, value: bool) -> (r: Self)
        ensures
            r == (CpuBuilder { has_vendor_systick: Some(value), ..self }),
    {
        CpuBuilder { has_vendor_systick: Some(value), ..self }
    }

    /// Set the device_num_interrupts of the cpu.
    pub fn device_num_interrupts(self, value: Option<u32>) -> (r: Self)
        ensures
            r == (CpuBuilder { device_num_interrupts: value, ..self }),
    {
        CpuBuilder { device_num_interrupts: value, ..self }
    }

    /// Set the sau_num_regions of the cpu.
    pub fn sau_num_regions(self, value: Option<u32>) -> (r: Self)
        ensures
            r == (CpuBuilder { sau_num_regions: value, ..self }),
    {
        CpuBuilder { sau_num_regions: value, ..self }
    }

    /// The cpu that a complete builder describes.
    pub open spec fn built(self) -> Cpu {
        Cpu { name: self.name->0, revision: self.revision->0, endian: self.endian->0, mpu_present: self.mpu_present->0, fpu_present: self.fpu_present->0, fpu_double_precision: self.fpu_double_precision, dsp_present: self.dsp_present, icache_present: self.icache_present, dcache_present: self.dcache_present, itcm_present: self.itcm_present, dtcm_present: self.dtcm_present, vtor_present: self.vtor_present, nvic_priority_bits: self.nvic_priority_bits->0, has_vendor_systick: self.has_vendor_systick->0, device_num_interrupts: self.device_num_interrupts, sau_num_regions: self.sau_num_regions }
    }

    /// Validate and build a [`Cpu`]: `name`, `revision`, `endian`,
    /// `mpu_present`, `fpu_present`, `nvic_priority_bits` and
    /// `has_vendor_systick` must be set, checked in that order.
    pub fn build(self, lvl: ValidateLevel) -> (r: Result<Cpu, SvdError>)
        ensures
            self.name is None ==> is_uninit(r, "name"@),
            self.name is Some && self.revision is None ==> is_uninit(r, "revision"@),
            self.name is Some && self.revision is Some && self.endian is None ==> is_uninit(r, "endian"@),
            self.name is Some && self.revision is Some && self.endian is Some && self.mpu_present is None ==> is_uninit(r, "mpu_present"@),
            self.name is Some && self.revision is Some && self.endian is Some && self.mpu_present is Some && self.fpu_present is None ==> is_uninit(r, "fpu_present"@),
            self.name is Some && self.revision is Some && self.endian is Some && self.mpu_present is Some && self.fpu_present is Some && self.nvic_priority_bits is None ==> is_uninit(r, "nvic_priority_bits"@),
            self.name is Some && self.revision is Some && self.endian is Some && self.mpu_present is Some && self.fpu_present is Some && self.nvic_priority_bits is Some && self.has_vendor_systick is None ==> is_uninit(r, "has_vendor_systick"@),
            self.name is Some && self.revision is Some && self.endian is Some && self.mpu_present is Some && self.fpu_present is Some && self.nvic_priority_bits is Some && self.has_vendor_systick is Some ==> r == Ok::<Cpu, SvdError>(self.built()),
    {
        let name = match self.name {
            Some(v) => v,
            None => return Err(SvdError::Build(BuildError::Uninitialized(owned("name")))),
        };
        let revision = match self.revision {
            Some(v) => v,
            None => return Err(SvdError::Build(BuildError::Uninitialized(owned("revision")))),
        };
        let endian = match self.endian {
            Some(v) => v,
            None => return Err(SvdError::Build(BuildError::Uninitialized(owned("endian")))),
        };
        let mpu_present = match self.mpu_present {
            Some(v) => v,
            None => return Err(SvdError::Build(BuildError::Uninitialized(owned("mpu_present")))),
        };
        let fpu_present = match self.fpu_present {
            Some(v) => v,
            None => return Err(SvdError::Build(BuildError::Uninitialized(owned("fpu_present")))),
        };
        let nvic_priority_bits = match self.nvic_priority_bits {
            Some(v) => v,
            None => return Err(SvdError::Build(BuildError::Uninitialized(owned("nvic_priority_bits")))),
        };
        let has_vendor_systick = match self.has_vendor_systick {
            Some(v) => v,
            None => return Err(SvdError::Build(BuildError::Uninitialized(owned("has_vendor_systick")))),
        };
        let mut cpu = Cpu { name, revision, endian, mpu_present, fpu_present, fpu_double_precision: self.fpu_double_precision, dsp_present: self.dsp_present, icache_present: self.icache_present, dcache_present: self.dcache_present, itcm_present: self.itcm_present, dtcm_present: self.dtcm_present, vtor_present: self.vtor_present, nvic_priority_bits, has_vendor_systick, device_num_interrupts: self.device_num_interrupts, sau_num_regions: self.sau_num_regions };
        if !lvl.is_disabled() {
            match cpu.validate(lvl) {
                Ok(()) => {},
                Err(e) => return Err(e),
            }
        }
        Ok(cpu)
    }
}

impl Cpu {
    /// Make a builder for [`Cpu`]
    pub fn builder() -> (r: CpuBuilder)
        ensures
            r == CpuBuilder::empty(),
    {
        CpuBuilder::default()
    }

    /// The cpu after a modification: each value that the builder sets replaces
    /// the current one.
    pub open spec fn modified(self, b: CpuBuilder) -> Cpu {
        Cpu {
            name: if let Some(v) = b.name { v } else { self.name },
            revision: if let Some(v) = b.revision { v } else { self.revision },
            endian: if let Some(v) = b.endian { v } else { self.endian },
            mpu_present: if let Some(v) = b.mpu_present { v } else { self.mpu_present },
            fpu_present: if let Some(v) = b.fpu_present { v } else { self.fpu_present },
            fpu_double_precision: if b.fpu_double_precision is Some { b.fpu_double_precision } else { self.fpu_double_precision },
            dsp_present: if b.dsp_present is Some { b.dsp_present } else { self.dsp_present },
            icache_present: if b.icache_present is Some { b.icache_present } else { self.icache_present },
            dcache_present: if b.dcache_present is Some { b.dcache_present } else { self.dcache_present },
            itcm_present: if b.itcm_present is Some { b.itcm_present } else { self.itcm_present },
            dtcm_present: if b.dtcm_present is Some { b.dtcm_present } else { self.dtcm_present },
            vtor_present: if b.vtor_present is Some { b.vtor_present } else { self.vtor_present },
            nvic_priority_bits: if let Some(v) = b.nvic_priority_bits { v } else { self.nvic_priority_bits },
            has_vendor_systick: if let Some(v) = b.has_vendor_systick { v } else { self.has_vendor_systick },
            device_num_interrupts: if b.device_num_interrupts is Some { b.device_num_interrupts } else { self.device_num_interrupts },
            sau_num_regions: if b.sau_num_regions is Some { b.sau_num_regions } else { self.sau_num_regions },
        }
    }

    /// Modify an existing [`Cpu`] based on a [builder](CpuBuilder).
    pub fn modify_from(&mut self, builder: CpuBuilder, lvl: ValidateLevel) -> (r: Result<(), SvdError>)
        ensures
            *final(self) == old(self).modified(builder),
            r is Ok,
    {
        let name = match builder.name {
            Some(v) => v,
            None => self.name.clone(),
        };
        let revision = match builder.revision {
            Some(v) => v,
            None => self.revision.clone(),
        };
        let endian = match builder.endian {
            Some(v) => v,
            None => self.endian,
        };
        let mpu_present = match builder.mpu_present {
            Some(v) => v,
            None => self.mpu_present,
        };
        let fpu_present = match builder.fpu_present {
            Some(v) => v,
            None => self.fpu_present,
        };
        let fpu_double_precision = if builder.fpu_double_precision.is_some() {
            builder.fpu_double_precision
        } else {
            self.fpu_double_precision
        };
        let dsp_present = if builder.dsp_present.is_some() {
            builder.dsp_present
        } else {
            self.dsp_present
        };
        let icache_present = if builder.icache_present.is_some() {
            builder.icache_present
        } else {
            self.icache_present
        };
        let dcache_present = if builder.dcache_present.is_some() {
            builder.dcache_present
        } else {
            self.dcache_present
        };
        let itcm_present = if builder.itcm_present.is_some() {
            builder.itcm_present
        } else {
            self.itcm_present
        };
        let dtcm_present = if builder.dtcm_present.is_some() {
            builder.dtcm_present
        } else {
            self.dtcm_present
        };
        let vtor_present = if builder.vtor_present.is_some() {
            builder.vtor_present
        } else {
            self.vtor_present
        };
        let nvic_priority_bits = match builder.nvic_priority_bits {
            Some(v) => v,
            None => self.nvic_priority_bits,
        };
        let has_vendor_systick = match builder.has_vendor_systick {
            Some(v) => v,
            None => self.has_vendor_systick,
        };
        let device_num_interrupts = if builder.device_num_interrupts.is_some() {
            builder.device_num_interrupts
        } else {
            self.device_num_interrupts
        };
        let sau_num_regions = if builder.sau_num_regions.is_some() {
            builder.sau_num_regions
        } else {
            self.sau_num_regions
        };
        *self = Cpu {
            name,
            revision,
            endian,
            mpu_present,
            fpu_present,
            fpu_double_precision,
            dsp_present,
            icache_present,
            dcache_present,
            itcm_present,
            dtcm_present,
            vtor_present,
            nvic_priority_bits,
            has_vendor_systick,
            device_num_interrupts,
            sau_num_regions,
        };
        if !lvl.is_disabled() {
            self.validate(lvl)
        } else {
            Ok(())
        }
    }

    /// Validate the [`Cpu`]: every cpu is valid.
    pub fn validate(&mut self, _lvl: ValidateLevel) -> (r: Result<(), SvdError>)
        ensures
            *final(self) == *old(self),
            r is Ok,
    {
        Ok(())
    }

    /// Whether the name starts with `CM`.
    pub open spec fn is_cortex_m_spec(self) -> bool {
        self.name@.len() >= 2 && self.name@[0] == 'C' && self.name@[1] == 'M'
    }

    /// Check if the [`Cpu`] is a Cortex-M
    pub fn is_cortex_m(&self) -> (r: bool)
        ensures
            r == self.is_cortex_m_spec(),
    {
        let n = self.name.as_str().unicode_len();
        if n < 2 {
            return false;
        }
        self.name.as_str().get_char(0) == 'C' && self.name.as_str().get_char(1) == 'M'
    }
}

/// Building from the values of a cpu gives the cpu back, and a modification
/// that sets nothing changes nothing.
pub proof fn lemma_cpu_rebuild(c: Cpu, d: Cpu)
    ensures
        CpuBuilder::from_cpu(c).built() == c,
        d.modified(CpuBuilder::empty()) == d,
{
}

} // verus!
