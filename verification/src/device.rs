use vstd::prelude::*;

use crate::field::opt_chars;
use crate::peripheral::peripheral_validate_all;
use crate::register::properties_outcome;
use crate::text::{concat, owned, replace_spec, replace_str, str_eq};
use crate::{
    empty_to_none, is_uninit, nonempty_text, outcome, BuildError, Cpu, Description, Name, Peripheral,
    RegisterProperties, SvdError, ValidateLevel,
};

verus! {

/// Errors for [`Device::validate`]
#[derive(Clone, Copy, Debug, PartialEq, Eq, Structural)]
pub enum Error {
    /// Device has no peripherals
    EmptyDevice,
}

/// The top element in a SVD file. Describes information specific to a device.
#[derive(Clone, Debug)]
pub struct Device {
    /// Specify the vendor of the device using the full name
    pub vendor: Option<String>,
    /// Specify the vendor abbreviation without spaces or special characters
    pub vendor_id: Option<String>,
    /// The string identifies the device or device series. Device names are required to be unique
    pub name: String,
    /// Specify the name of the device series
    pub series: Option<String>,
    /// Define the version of the SVD file
    pub version: String,
    /// Describe the main features of the device (for example CPU, clock frequency, peripheral overview)
    pub description: String,
    /// The text will be copied into the header section of the generated device header file and shall contain the legal disclaimer
    pub license_text: Option<String>,
    /// Describe the processor included in the device
    pub cpu: Option<Cpu>,
    /// Specify the file name (without extension) of the device-specific system include file
    pub header_system_filename: Option<String>,
    /// This string is prepended to all type definition names generated in the CMSIS-Core device header file
    pub header_definitions_prefix: Option<String>,
    /// Define the number of data bits uniquely selected by each address
    pub address_unit_bits: u32,
    /// Define the number of data bit-width of the maximum single data transfer supported by the bus infrastructure
    pub width: u32,
    /// Default properties for all registers
    pub default_register_properties: RegisterProperties,
    /// Group to define peripherals
    pub peripherals: Vec<Peripheral>,
    /// Specify the underlying XML schema to which the CMSIS-SVD schema is compliant.
    pub xmlns_xs: String,
    /// Specify the file path and file name of the CMSIS-SVD Schema
    pub no_namespace_schema_location: String,
    /// Specify the compliant CMSIS-SVD schema version
    pub schema_version: String,
    /// XML global comments (usually license)
    pub comments: Vec<String>,
}

/// The XML schema instance namespace used when none is given.
pub open spec fn default_xmlns_xs_spec() -> Seq<char> {
    "http://www.w3.org/2001/XMLSchema-instance"@
}

/// The schema version used when none is given.
pub open spec fn default_schema_version_spec() -> Seq<char> {
    "1.1"@
}

/// The schema location used when none is given: that of the default schema
/// version, its dots written as underscores.
pub open spec fn default_location_spec() -> Seq<char> {
    "CMSIS-SVD_Schema_"@ + replace_spec(default_schema_version_spec(), "."@, "_"@) + ".xsd"@
}

fn default_xmlns_xs() -> (r: String)
    ensures
        r@ == default_xmlns_xs_spec(),
{
    owned("http://www.w3.org/2001/XMLSchema-instance")
}

fn default_schema_version() -> (r: String)
    ensures
        r@ == default_schema_version_spec(),
{
    owned("1.1")
}

fn default_no_namespace_schema_location() -> (r: String)
    ensures
        r@ == default_location_spec(),
{
    let dot = ".";
    proof {
        reveal_strlit(".");
    }
    let version = replace_str(default_schema_version().as_str(), dot, "_");
    let head = concat("CMSIS-SVD_Schema_", version.as_str());
    concat(head.as_str(), ".xsd")
}

/// Builder for [`Device`]
#[derive(Debug)]
pub struct DeviceBuilder {
    /// The vendor, if set.
    pub vendor: Option<String>,
    /// The vendor id, if set.
    pub vendor_id: Option<String>,
    /// The name, if set.
    pub name: Option<String>,
    /// The series, if set.
    pub series: Option<String>,
    /// The version, if set.
    pub version: Option<String>,
    /// The description, if set.
    pub description: Option<String>,
    /// The license text, if set.
    pub license_text: Option<String>,
    /// The cpu, if set.
    pub cpu: Option<Cpu>,
    /// The header system file name, if set.
    pub header_system_filename: Option<String>,
    /// The header definitions prefix, if set.
    pub header_definitions_prefix: Option<String>,
    /// The address unit bits, if set.
    pub address_unit_bits: Option<u32>,
    /// The width, if set.
    pub width: Option<u32>,
    /// The default register properties.
    pub default_register_properties: RegisterProperties,
    /// The peripherals, if set.
    pub peripherals: Option<Vec<Peripheral>>,
    /// The schema instance namespace, if set.
    pub xmlns_xs: Option<String>,
    /// The schema location, if set.
    pub no_namespace_schema_location: Option<String>,
    /// The schema version, if set.
    pub schema_version: Option<String>,
    /// The XML global comments.
    pub comments: Vec<String>,
}

impl Default for DeviceBuilder {
    fn default() -> (r: Self)
        ensures
            r == (DeviceBuilder { comments: r.comments, ..DeviceBuilder::unset(r.comments) }),
            r.comments@.len() == 0,
    {
        DeviceBuilder {
            vendor: None,
            vendor_id: None,
            name: None,
            series: None,
            version: None,
            description: None,
            license_text: None,
            cpu: None,
            header_system_filename: None,
            header_definitions_prefix: None,
            address_unit_bits: None,
            width: None,
            default_register_properties: RegisterProperties::new(),
            peripherals: None,
            xmlns_xs: None,
            no_namespace_schema_location: None,
            schema_version: None,
            comments: Vec::new(),
        }
    }
}

impl From<Device> for DeviceBuilder {
    fn from(d: Device) -> (r: Self)
        ensures
            r == Self::from_device(d),
    {
        DeviceBuilder {
            vendor: d.vendor,
            vendor_id: d.vendor_id,
            name: Some(d.name),
            series: d.series,
            version: Some(d.version),
            description: Some(d.description),
            license_text: d.license_text,
            cpu: d.cpu,
            header_system_filename: d.header_system_filename,
            header_definitions_prefix: d.header_definitions_prefix,
            address_unit_bits: Some(d.address_unit_bits),
            width: Some(d.width),
            default_register_properties: d.default_register_properties,
            peripherals: Some(d.peripherals),
            xmlns_xs: Some(d.xmlns_xs),
            no_namespace_schema_location: Some(d.no_namespace_schema_location),
            schema_version: Some(d.schema_version),
            comments: d.comments,
        }
    }
}

impl vstd::std_specs::convert::FromSpecImpl<Device> for DeviceBuilder {
    open spec fn obeys_from_spec() -> bool {
        true
    }

    open spec fn from_spec(d: Device) -> Self {
        Self::from_device(d)
    }
}

/// A value of the builder: the one set, else, short of strict validation,
/// the default one; under strict validation a missing value is refused.
pub open spec fn or_default<T>(v: Option<T>, lvl: ValidateLevel, default: T) -> Option<T> {
    match v {
        Some(x) => Some(x),
        None => if lvl == ValidateLevel::Strict { None } else { Some(default) },
    }
}

impl DeviceBuilder {
    /// The builder that sets nothing, with the comments `comments`.
    pub open spec fn unset(comments: Vec<String>) -> Self {
        DeviceBuilder {
            vendor: None,
            vendor_id: None,
            name: None,
            series: None,
            version: None,
            description: None,
            license_text: None,
            cpu: None,
            header_system_filename: None,
            header_definitions_prefix: None,
            address_unit_bits: None,
            width: None,
            default_register_properties: RegisterProperties::empty(),
            peripherals: None,
            xmlns_xs: None,
            no_namespace_schema_location: None,
            schema_version: None,
            comments,
        }
    }

    /// The builder that holds every value of `d`.
    pub open spec fn from_device(d: Device) -> Self {
        DeviceBuilder {
            vendor: d.vendor,
            vendor_id: d.vendor_id,
            name: Some(d.name),
            series: d.series,
            version: Some(d.version),
            description: Some(d.description),
            license_text: d.license_text,
            cpu: d.cpu,
            header_system_filename: d.header_system_filename,
            header_definitions_prefix: d.header_definitions_prefix,
            address_unit_bits: Some(d.address_unit_bits),
            width: Some(d.width),
            default_register_properties: d.default_register_properties,
            peripherals: Some(d.peripherals),
            xmlns_xs: Some(d.xmlns_xs),
            no_namespace_schema_location: Some(d.no_namespace_schema_location),
            schema_version: Some(d.schema_version),
            comments: d.comments,
        }
    }

    /// The version that building at `lvl` uses, if any.
    pub open spec fn version_at(self, lvl: ValidateLevel) -> Option<Seq<char>> {
        or_default(opt_chars(self.version), lvl, "1.0"@)
    }

    /// The description that building at `lvl` uses, if any.
    pub open spec fn description_at(self, lvl: ValidateLevel) -> Option<Seq<char>> {
        or_default(opt_chars(self.description), lvl, Seq::empty())
    }

    /// The address unit bits that building at `lvl` uses, if any.
    pub open spec fn address_unit_bits_at(self, lvl: ValidateLevel) -> Option<u32> {
        or_default(self.address_unit_bits, lvl, 8)
    }

    /// The width that building at `lvl` uses, if any.
    pub open spec fn width_at(self, lvl: ValidateLevel) -> Option<u32> {
        or_default(self.width, lvl, 32)
    }

    /// Set the vendor of the device.
    pub fn vendor(self, value: Option<String>) -> (r: Self)
        ensures
            r == (DeviceBuilder { vendor: value, ..self }),
    {
        DeviceBuilder { vendor: value, ..self }
    }

    /// Set the vendor_id of the device.
    pub fn vendor_id(self, value: Option<String>) -> (r: Self)
        ensures
            r == (DeviceBuilder { vendor_id: value, ..self }),
    {
        DeviceBuilder { vendor_id: value, ..self }
    }

    /// Set the name of the device.
    pub fn name(self, value: String) -> (r: Self)
        ensures
            r == (DeviceBuilder { name: Some(value), ..self }),
    {
        DeviceBuilder { name: Some(value), ..self }
    }

    /// Set the series of the device.
    pub fn series(self, value: Option<String>) -> (r: Self)
        ensures
            r == (DeviceBuilder { series: value, ..self }),
    {
        DeviceBuilder { series: value, ..self }
    }

    /// Set the version of the device.
    pub fn version(self, value: String) -> (r: Self)
        ensures
            r == (DeviceBuilder { version: Some(value), ..self }),
    {
        DeviceBuilder { version: Some(value), ..self }
    }

    /// Set the description of the device.
    pub fn description(self, value: String) -> (r: Self)
        ensures
            r == (DeviceBuilder { description: Some(value), ..self }),
    {
        DeviceBuilder { description: Some(value), ..self }
    }

    /// Set the license_text of the device.
    pub fn license_text(self, value: Option<String>) -> (r: Self)
        ensures
            r == (DeviceBuilder { license_text: value, ..self }),
    {
        DeviceBuilder { license_text: value, ..self }
    }

    /// Set the cpu of the device.
    pub fn cpu(self, value: Option<Cpu>) -> (r: Self)
        ensures
            r == (DeviceBuilder { cpu: value, ..self }),
    {
        DeviceBuilder { cpu: value, ..self }
    }

    /// Set the header_system_filename of the device.
    pub fn header_system_filename(self, value: Option<String>) -> (r: Self)
        ensures
            r == (DeviceBuilder { header_system_filename: value, ..self }),
    {
        DeviceBuilder { header_system_filename: value, ..self }
    }

    /// Set the header_definitions_prefix of the device.
    pub fn header_definitions_prefix(self, value: Option<String>) -> (r: Self)
        ensures
            r == (DeviceBuilder { header_definitions_prefix: value, ..self }),
    {
        DeviceBuilder { header_definitions_prefix: value, ..self }
    }

    /// Set the address unit bits of the device.
    pub fn address_unit_bits(self, value: u32) -> (r: Self)
        ensures
            r == (DeviceBuilder { address_unit_bits: Some(value), ..self }),
    {
        DeviceBuilder { address_unit_bits: Some(value), ..self }
    }

    /// Set the width of the device.
    pub fn width(self, value: u32) -> (r: Self)
        ensures
            r == (DeviceBuilder { width: Some(value), ..self }),
    {
        DeviceBuilder { width: Some(value), ..self }
    }

    /// Set the default register properties of the device.
    pub fn default_register_properties(self, value: RegisterProperties) -> (r: Self)
        ensures
            r == (DeviceBuilder { default_register_properties: value, ..self }),
    {
        DeviceBuilder { default_register_properties: value, ..self }
    }

    /// Set the peripherals of the device.
    pub fn peripherals(self, value: Vec<Peripheral>) -> (r: Self)
        ensures
            r == (DeviceBuilder { peripherals: Some(value), ..self }),
    {
        DeviceBuilder { peripherals: Some(value), ..self }
    }

    /// Set the xmlns_xs version of the device.
    pub fn xmlns_xs(self, value: String) -> (r: Self)
        ensures
            r == (DeviceBuilder { xmlns_xs: Some(value), ..self }),
    {
        DeviceBuilder { xmlns_xs: Some(value), ..self }
    }

    /// Set the no_namespace_schema_location version of the device.
    pub fn no_namespace_schema_location(self, value: String) -> (r: Self)
        ensures
            r == (DeviceBuilder { no_namespace_schema_location: Some(value), ..self }),
    {
        DeviceBuilder { no_namespace_schema_location: Some(value), ..self }
    }

    /// Set the schema version of the device.
    pub fn schema_version(self, value: String) -> (r: Self)
        ensures
            r == (DeviceBuilder { schema_version: Some(value), ..self }),
    {
        DeviceBuilder { schema_version: Some(value), ..self }
    }

    /// XML global comments (usually license)
    pub fn comments(self, value: Vec<String>) -> (r: Self)
        ensures
            r == (DeviceBuilder { comments: value, ..self }),
    {
        DeviceBuilder { comments: value, ..self }
    }

    /// Validate and build a [`Device`]. In this order: a name must be set;
    /// the version, the description, the address unit bits and the width
    /// default (to `1.0`, empty, 8 and 32) short of strict validation and are
    /// otherwise required; the properties are validated; the peripherals must
    /// be set; the schema values default; then the device is validated.
    pub fn build(self, lvl: ValidateLevel) -> (r: Result<Device, SvdError>)
        ensures
            self.name is None ==> is_uninit(r, "name"@),
            self.name is Some && self.version_at(lvl) is None ==> is_uninit(r, "version"@),
            self.name is Some && self.version_at(lvl) is Some && self.description_at(lvl) is None ==> is_uninit(
                r,
                "description"@,
            ),
            self.name is Some && self.version_at(lvl) is Some && self.description_at(lvl) is Some
                && self.address_unit_bits_at(lvl) is None ==> is_uninit(r, "addressUnitBits"@),
            self.name is Some && self.version_at(lvl) is Some && self.description_at(lvl) is Some
                && self.address_unit_bits_at(lvl) is Some && self.width_at(lvl) is None ==> is_uninit(
                r,
                "width"@,
            ),
            ({
                let ready = self.name is Some && self.version_at(lvl) is Some && self.description_at(lvl) is Some
                    && self.address_unit_bits_at(lvl) is Some && self.width_at(lvl) is Some;
                let props = properties_outcome(self.default_register_properties, lvl);
                &&& ready && props is Err ==> outcome(r) == props
                &&& ready && props is Ok && self.peripherals is None ==> is_uninit(r, "peripherals"@)
                &&& ready && props is Ok && self.peripherals is Some ==> outcome(r) == device_validate_spec(
                    self.peripherals->0@.len(),
                    lvl,
                )
            }),
            r matches Ok(d) ==> {
                &&& d == Device {
                    version: d.version,
                    description: d.description,
                    xmlns_xs: d.xmlns_xs,
                    no_namespace_schema_location: d.no_namespace_schema_location,
                    schema_version: d.schema_version,
                    name: self.name->0,
                    address_unit_bits: self.address_unit_bits_at(lvl)->0,
                    width: self.width_at(lvl)->0,
                    peripherals: self.peripherals->0,
                    vendor: self.vendor,
                    vendor_id: self.vendor_id,
                    series: self.series,
                    license_text: self.license_text,
                    cpu: self.cpu,
                    header_system_filename: self.header_system_filename,
                    header_definitions_prefix: self.header_definitions_prefix,
                    default_register_properties: self.default_register_properties,
                    comments: self.comments,
                }
                &&& Some(d.version@) == self.version_at(lvl)
                &&& Some(d.description@) == self.description_at(lvl)
                &&& d.xmlns_xs@ == match self.xmlns_xs {
                    Some(s) => s@,
                    None => default_xmlns_xs_spec(),
                }
                &&& d.no_namespace_schema_location@ == match self.no_namespace_schema_location {
                    Some(s) => s@,
                    None => default_location_spec(),
                }
                &&& d.schema_version@ == match self.schema_version {
                    Some(s) => s@,
                    None => default_schema_version_spec(),
                }
            },
    {
        let strict = lvl.is_strict();
        let schema_version = match self.schema_version {
            Some(s) => s,
            None => default_schema_version(),
        };
        let name = match self.name {
            Some(n) => n,
            None => return Err(SvdError::Build(BuildError::Uninitialized(owned("name")))),
        };
        let version = match self.version {
            Some(v) => v,
            None => if !strict {
                proof {
                    reveal_strlit("1.0");
                }
                owned("1.0")
            } else {
                return Err(SvdError::Build(BuildError::Uninitialized(owned("version"))));
            },
        };
        let description = match self.description {
            Some(v) => v,
            None => if !strict {
                proof {
                    reveal_strlit("");
                }
                owned("")
            } else {
                return Err(SvdError::Build(BuildError::Uninitialized(owned("description"))));
            },
        };
        let address_unit_bits = match self.address_unit_bits {
            Some(v) => v,
            None => if !strict {
                8
            } else {
                return Err(SvdError::Build(BuildError::Uninitialized(owned("addressUnitBits"))));
            },
        };
        let width = match self.width {
            Some(v) => v,
            None => if !strict {
                32
            } else {
                return Err(SvdError::Build(BuildError::Uninitialized(owned("width"))));
            },
        };
        let default_register_properties = match self.default_register_properties.build(lvl) {
            Ok(p) => p,
            Err(e) => return Err(e),
        };
        let peripherals = match self.peripherals {
            Some(p) => p,
            None => return Err(SvdError::Build(BuildError::Uninitialized(owned("peripherals")))),
        };
        let xmlns_xs = match self.xmlns_xs {
            Some(s) => s,
            None => default_xmlns_xs(),
        };
        let no_namespace_schema_location = match self.no_namespace_schema_location {
            Some(s) => s,
            None => default_no_namespace_schema_location(),
        };
        let device = Device {
            vendor: self.vendor,
            vendor_id: self.vendor_id,
            name,
            series: self.series,
            version,
            description,
            license_text: self.license_text,
            cpu: self.cpu,
            header_system_filename: self.header_system_filename,
            header_definitions_prefix: self.header_definitions_prefix,
            address_unit_bits,
            width,
            default_register_properties,
            peripherals,
            xmlns_xs,
            no_namespace_schema_location,
            schema_version,
            comments: self.comments,
        };
        match device.validate(lvl) {
            Ok(()) => Ok(device),
            Err(e) => Err(e),
        }
    }
}

/// What [`Device::validate`] answers for a device with `n` peripherals: with
/// validation enabled, a device must have a peripheral.
pub open spec fn device_validate_spec(n: nat, lvl: ValidateLevel) -> Result<(), SvdError> {
    if lvl != ValidateLevel::Disabled && n == 0 {
        Err(SvdError::Device(Error::EmptyDevice))
    } else {
        Ok(())
    }
}

/// `r` is what [`Device::validate_all`] answers: the default properties,
/// then each peripheral in turn, then the device itself. A cpu carries no
/// rules.
pub open spec fn device_validate_all(d: Device, lvl: ValidateLevel, r: Result<(), SvdError>) -> bool {
    let ps = d.peripherals@;
    if d.default_register_properties.validate_spec(lvl) is Err {
        r == d.default_register_properties.validate_spec(lvl)
    } else if exists|k: int| 0 <= k < ps.len() && !peripheral_validate_all(#[trigger] ps[k].info_spec(), lvl, Ok(())) {
        r is Err && exists|k: int|
            0 <= k < ps.len() && !peripheral_validate_all(#[trigger] ps[k].info_spec(), lvl, Ok(())) && (forall|j: int|
                0 <= j < k ==> peripheral_validate_all(ps[j].info_spec(), lvl, Ok(())))
                && peripheral_validate_all(ps[k].info_spec(), lvl, r)
    } else {
        r == device_validate_spec(ps.len(), lvl)
    }
}

/// The position of the first peripheral named `name`.
pub open spec fn first_peripheral_named(s: Seq<Peripheral>, name: Seq<char>, i: int) -> bool {
    0 <= i < s.len() && s[i].info_spec().name@ == name && forall|j: int|
        0 <= j < i ==> s[j].info_spec().name@ != name
}

impl Device {
    /// The device after the head of a modification: each text that the
    /// builder sets replaces the current one (optional ones that are empty
    /// counting as none), and so do the cpu, the address unit bits and the
    /// width.
    pub open spec fn modified_head(self, b: DeviceBuilder) -> Device {
        Device {
            vendor: if b.vendor is Some { nonempty_text(b.vendor) } else { self.vendor },
            vendor_id: if b.vendor_id is Some { nonempty_text(b.vendor_id) } else { self.vendor_id },
            name: if b.name is Some { b.name->0 } else { self.name },
            series: if b.series is Some { nonempty_text(b.series) } else { self.series },
            version: if b.version is Some { b.version->0 } else { self.version },
            description: if b.description is Some { b.description->0 } else { self.description },
            license_text: if b.license_text is Some { nonempty_text(b.license_text) } else { self.license_text },
            cpu: if b.cpu is Some { b.cpu } else { self.cpu },
            header_system_filename: if b.header_system_filename is Some {
                nonempty_text(b.header_system_filename)
            } else {
                self.header_system_filename
            },
            header_definitions_prefix: if b.header_definitions_prefix is Some {
                nonempty_text(b.header_definitions_prefix)
            } else {
                self.header_definitions_prefix
            },
            address_unit_bits: if b.address_unit_bits is Some { b.address_unit_bits->0 } else { self.address_unit_bits },
            width: if b.width is Some { b.width->0 } else { self.width },
            ..self
        }
    }

    /// The device after a complete modification: the head, the properties
    /// modified by those of the builder, and each of the peripherals and the
    /// schema values that the builder sets.
    pub open spec fn modified(self, b: DeviceBuilder) -> Device {
        let h = self.modified_head(b);
        Device {
            default_register_properties: h.default_register_properties.modified(b.default_register_properties),
            peripherals: if b.peripherals is Some { b.peripherals->0 } else { h.peripherals },
            xmlns_xs: if b.xmlns_xs is Some { b.xmlns_xs->0 } else { h.xmlns_xs },
            no_namespace_schema_location: if b.no_namespace_schema_location is Some {
                b.no_namespace_schema_location->0
            } else {
                h.no_namespace_schema_location
            },
            schema_version: if b.schema_version is Some { b.schema_version->0 } else { h.schema_version },
            ..h
        }
    }

    /// Make a builder for [`Device`]
    pub fn builder() -> (r: DeviceBuilder)
        ensures
            r == (DeviceBuilder { comments: r.comments, ..DeviceBuilder::unset(r.comments) }),
            r.comments@.len() == 0,
    {
        DeviceBuilder::default()
    }

    /// Modify an existing [`Device`] based on a [builder](DeviceBuilder). A
    /// refusal of the modified properties stops the modification with that
    /// error.
    #[verifier::rlimit(100)]
    #[verifier::spinoff_prover]
    pub fn modify_from(&mut self, builder: DeviceBuilder, lvl: ValidateLevel) -> (r: Result<(), SvdError>)
        ensures
            ({
                let h = old(self).modified_head(builder);
                let p = h.default_register_properties.modified(builder.default_register_properties);
                if properties_outcome(p, lvl) is Err {
                    &&& r == properties_outcome(p, lvl)
                    &&& *final(self) == Device { default_register_properties: p, ..h }
                } else {
                    &&& *final(self) == old(self).modified(builder)
                    &&& r == device_validate_spec(final(self).peripherals@.len(), lvl)
                }
            }),
    {
        if builder.vendor.is_some() {
            self.vendor = empty_to_none(builder.vendor);
        }
        if builder.vendor_id.is_some() {
            self.vendor_id = empty_to_none(builder.vendor_id);
        }
        if let Some(name) = builder.name {
            self.name = name;
        }
        if builder.series.is_some() {
            self.series = empty_to_none(builder.series);
        }
        if let Some(version) = builder.version {
            self.version = version;
        }
        if let Some(description) = builder.description {
            self.description = description;
        }
        if builder.license_text.is_some() {
            self.license_text = empty_to_none(builder.license_text);
        }
        if builder.cpu.is_some() {
            self.cpu = builder.cpu;
        }
        if builder.header_system_filename.is_some() {
            self.header_system_filename = empty_to_none(builder.header_system_filename);
        }
        if builder.header_definitions_prefix.is_some() {
            self.header_definitions_prefix = empty_to_none(builder.header_definitions_prefix);
        }
        if let Some(address_unit_bits) = builder.address_unit_bits {
            self.address_unit_bits = address_unit_bits;
        }
        if let Some(width) = builder.width {
            self.width = width;
        }
        match self.default_register_properties.modify_from(builder.default_register_properties, lvl) {
            Ok(()) => {},
            Err(e) => return Err(e),
        }
        if let Some(peripherals) = builder.peripherals {
            self.peripherals = peripherals;
        }
        if let Some(xmlns_xs) = builder.xmlns_xs {
            self.xmlns_xs = xmlns_xs;
        }
        if let Some(no_namespace_schema_location) = builder.no_namespace_schema_location {
            self.no_namespace_schema_location = no_namespace_schema_location;
        }
        if let Some(schema_version) = builder.schema_version {
            self.schema_version = schema_version;
        }
        self.validate(lvl)
    }

    /// Validate the [`Device`]
    pub fn validate(&self, lvl: ValidateLevel) -> (r: Result<(), SvdError>)
        ensures
            r == device_validate_spec(self.peripherals@.len(), lvl),
    {
        if !lvl.is_disabled() {
            if self.peripherals.len() == 0 {
                return Err(SvdError::Device(Error::EmptyDevice));
            }
        }
        Ok(())
    }

    /// Validate the [`Device`] recursively
    pub fn validate_all(&self, lvl: ValidateLevel) -> (r: Result<(), SvdError>)
        ensures
            device_validate_all(*self, lvl, r),
    {
        match self.default_register_properties.check(lvl) {
            Ok(()) => {},
            Err(e) => return Err(e),
        }
        let mut i: usize = 0;
        while i < self.peripherals.len()
            invariant
                i <= self.peripherals@.len(),
                self.default_register_properties.validate_spec(lvl) is Ok,
                forall|j: int| 0 <= j < i ==> peripheral_validate_all(self.peripherals@[j].info_spec(), lvl, Ok(())),
            decreases self.peripherals@.len() - i,
        {
            match self.peripherals[i].validate_all(lvl) {
                Ok(()) => {},
                Err(e) => {
                    assert(!peripheral_validate_all(self.peripherals@[i as int].info_spec(), lvl, Ok(())));
                    return Err(e);
                },
            }
            i += 1;
        }
        self.validate(lvl)
    }

    /// Get peripheral by name: the first with that name.
    pub fn get_peripheral(&self, name: &str) -> (r: Option<&Peripheral>)
        ensures
            match r {
                Some(p) => exists|i: int| first_peripheral_named(self.peripherals@, name@, i) && self.peripherals@[i] == *p,
                None => forall|j: int|
                    0 <= j < self.peripherals@.len() ==> self.peripherals@[j].info_spec().name@ != name@,
            },
    {
        let mut i: usize = 0;
        while i < self.peripherals.len()
            invariant
                i <= self.peripherals@.len(),
                forall|j: int| 0 <= j < i ==> self.peripherals@[j].info_spec().name@ != name@,
            decreases self.peripherals@.len() - i,
        {
            if str_eq(self.peripherals[i].info().name.as_str(), name) {
                assert(first_peripheral_named(self.peripherals@, name@, i as int));
                return Some(&self.peripherals[i]);
            }
            i += 1;
        }
        None
    }

    /// Get mutable peripheral by name: the first with that name.
    pub fn get_mut_peripheral(&mut self, name: &str) -> (r: Option<&mut Peripheral>)
        ensures
            match r {
                Some(p) => exists|i: int|
                    first_peripheral_named(old(self).peripherals@, name@, i) && old(self).peripherals@[i] == *p
                        && final(self).peripherals@ == old(self).peripherals@.update(i, *final(p))
                        && *final(self) == Device { peripherals: final(self).peripherals, ..*old(self) },
                None => *final(self) == *old(self) && forall|j: int|
                    0 <= j < old(self).peripherals@.len() ==> old(self).peripherals@[j].info_spec().name@ != name@,
            },
    {
        let mut found: Option<usize> = None;
        let mut i: usize = 0;
        while i < self.peripherals.len()
            invariant_except_break
                found is None,
            invariant
                i <= self.peripherals@.len(),
                forall|j: int| 0 <= j < i ==> self.peripherals@[j].info_spec().name@ != name@,
            ensures
                match found {
                    Some(k) => first_peripheral_named(self.peripherals@, name@, k as int),
                    None => forall|j: int|
                        0 <= j < self.peripherals@.len() ==> self.peripherals@[j].info_spec().name@ != name@,
                },
            decreases self.peripherals@.len() - i,
        {
            if str_eq(self.peripherals[i].info().name.as_str(), name) {
                found = Some(i);
                break;
            }
            i += 1;
        }
        match found {
            Some(k) => Some(&mut self.peripherals[k]),
            None => None,
        }
    }
}

impl Name for Device {
    open spec fn name_spec(&self) -> Seq<char> {
        self.name@
    }

    fn name(&self) -> (r: &str) {
        self.name.as_str()
    }
}

impl Description for Device {
    open spec fn description_spec(&self) -> Option<Seq<char>> {
        Some(self.description@)
    }

    fn description(&self) -> (r: Option<&str>) {
        Some(self.description.as_str())
    }
}

} // verus!
