//! SVD objects.
//! This crate defines the components of an SVD device description, their
//! builders and validation rules, and the rules that patch a device.
use vstd::prelude::*;

pub mod text;

/// Common things for structures which can be collected in arrays
pub mod array;
pub use array::MaybeArray;

/// Access objects
pub mod access;
pub use self::access::Access;
/// Endian objects
pub mod endian;
pub use self::endian::Endian;
/// Usage objects
pub mod usage;
pub use self::usage::Usage;
/// Protection objects
pub mod protection;
pub use self::protection::Protection;
/// Read Action objects
pub mod readaction;
pub use self::readaction::ReadAction;
/// Modified Write Values objects
pub mod modifiedwritevalues;
pub use self::modifiedwritevalues::ModifiedWriteValues;
/// DataType objects
pub mod datatype;
pub use self::datatype::DataType;
/// Bitrange objects
pub mod bitrange;
pub use self::bitrange::{BitRange, BitRangeType};
/// Write constraint objects
pub mod writeconstraint;
pub use self::writeconstraint::{WriteConstraint, WriteConstraintRange};
/// Enumerated Value objects
pub mod enumeratedvalue;
pub use self::enumeratedvalue::{EnumeratedValue, EnumeratedValueBuilder};
/// Enumerated Values objects
pub mod enumeratedvalues;
pub use self::enumeratedvalues::{EnumeratedValues, EnumeratedValuesBuilder};
/// Register Properties objects
pub mod registerproperties;
pub use self::registerproperties::RegisterProperties;
/// Cpu objects
pub mod cpu;
pub use self::cpu::{Cpu, CpuBuilder};
/// Dimelement objects
pub mod dimelement;
pub use self::dimelement::{DimArrayIndex, DimElement, DimElementBuilder};
/// Interrupt objects
pub mod interrupt;
pub use self::interrupt::{Interrupt, InterruptBuilder};
/// Custom objects for the RISC-V ecosystem
pub mod riscv;
pub use self::riscv::{Riscv, RiscvBuilder};
/// Field objects
pub mod field;
pub use self::field::{Field, FieldInfo, FieldInfoBuilder};
/// Register objects
pub mod register;
pub use self::register::{Register, RegisterInfo, RegisterInfoBuilder};
/// Cluster objects
pub mod cluster;
pub use self::cluster::{Cluster, ClusterInfo, ClusterInfoBuilder};
/// Register Cluster objects
pub mod registercluster;
pub use self::registercluster::RegisterCluster;
/// Peripheral objects
pub mod peripheral;
pub use self::peripheral::{Peripheral, PeripheralInfo, PeripheralInfoBuilder};
/// Device objects
pub mod device;
pub use self::device::{Device, DeviceBuilder};
/// Filling the unset values of an element from another
pub mod derive_from;

/// Copies of registers and clusters that keep every value
pub mod copying;
pub use self::derive_from::DeriveFrom;
/// Patching a device description
pub mod patch;
/// Address Block objects
pub mod addressblock;
pub use self::addressblock::{AddressBlock, AddressBlockBuilder, AddressBlockUsage};

use crate::text::{owned, split_chars, chars_of, strings_view, split_spec};

verus! {

/// Level of validation
#[derive(Clone, Copy, Debug, PartialEq, Eq, Structural)]
pub enum ValidateLevel {
    /// No validation.
    Disabled,
    /// Weak validation.
    Weak,
    /// Strict validation.
    Strict,
}

impl Default for ValidateLevel {
    fn default() -> (r: Self)
        ensures
            r == ValidateLevel::Weak,
    {
        ValidateLevel::Weak
    }
}

impl ValidateLevel {
    /// Returns true if validation is disabled.
    pub fn is_disabled(self) -> (r: bool)
        ensures
            r == (self == ValidateLevel::Disabled),
    {
        self == ValidateLevel::Disabled
    }

    /// Returns true if validation is considered to be weakly checked.
    pub fn is_weak(self) -> (r: bool)
        ensures
            r == (self != ValidateLevel::Disabled),
    {
        self != ValidateLevel::Disabled
    }

    /// Returns true if validation is considered to be strictly checked.
    pub fn is_strict(self) -> (r: bool)
        ensures
            r == (self == ValidateLevel::Strict),
    {
        self == ValidateLevel::Strict
    }
}

/// Strict validation is also weak validation, and a level is either
/// disabled or (at least) weak.
pub proof fn lemma_validate_levels_ordered(lvl: ValidateLevel)
    ensures
        lvl == ValidateLevel::Strict ==> lvl != ValidateLevel::Disabled,
        (lvl == ValidateLevel::Disabled) != (lvl != ValidateLevel::Disabled),
{
}

/// Errors from a builder
#[derive(Clone, Debug, PartialEq, Eq)]
pub enum BuildError {
    /// Field was not set when building it.
    Uninitialized(String),
}

/// Errors that can occur during building.
#[derive(Clone, Debug, PartialEq, Eq)]
pub enum SvdError {
    /// Error related to a builder
    Build(BuildError),
    /// Name check error
    Name(NameError),
    /// Device error
    Device(device::Error),
    /// Peripheral error
    Peripheral(peripheral::Error),
    /// Cluster error
    Cluster(cluster::Error),
    /// Register error
    Register(register::Error),
    /// Field error
    Field(field::Error),
    /// BitRange error
    BitRange(bitrange::Error),
    /// WriteConstraint error
    WriteConstraint(writeconstraint::Error),
    /// EnumeratedValue error
    EnumeratedValue(enumeratedvalue::Error),
    /// EnumeratedValues error
    EnumeratedValues(enumeratedvalues::Error),
    /// RegisterProperties error
    RegisterProperties(registerproperties::Error),
}

/// `r` is the error of a builder whose value `field` was not set.
pub open spec fn is_uninit<T>(r: Result<T, SvdError>, field: Seq<char>) -> bool {
    r matches Err(SvdError::Build(BuildError::Uninitialized(s))) && s@ == field
}

/// The outcome of `r`, with the built value dropped.
pub open spec fn outcome<T>(r: Result<T, SvdError>) -> Result<(), SvdError> {
    match r {
        Ok(_) => Ok(()),
        Err(e) => Err(e),
    }
}

/// Invalid error
#[derive(Clone, Debug, PartialEq, Eq)]
pub enum NameError {
    /// Name is invalid
    Invalid(String, String),
}

// ---------------------------------------------------------------------------
// Names
// ---------------------------------------------------------------------------

/// `_`, `A`-`Z` or `a`-`z`.
pub open spec fn is_ident_start(c: char) -> bool {
    c == '_' || ('a' <= c && c <= 'z') || ('A' <= c && c <= 'Z')
}

/// `_`, `A`-`Z`, `a`-`z` or `0`-`9`.
pub open spec fn is_ident_char(c: char) -> bool {
    is_ident_start(c) || ('0' <= c && c <= '9')
}

/// Every character is `_`, a letter or a digit (the empty name too).
pub open spec fn all_ident(s: Seq<char>) -> bool {
    forall|i: int| 0 <= i < s.len() ==> is_ident_char(#[trigger] s[i])
}

/// `%s` at position `k`.
pub open spec fn placeholder_at(s: Seq<char>, k: int) -> bool {
    0 <= k && k + 2 <= s.len() && s[k] == '%' && s[k + 1] == 's'
}

/// The names that may carry the `%s` placeholder of arrays:
/// `%s`; `%s` then an identifier; an identifier that may end in `[%s]`;
/// an identifier that holds at most one `%s` after its first character.
pub open spec fn dimable_name(s: Seq<char>) -> bool {
    ||| (s.len() == 2 && placeholder_at(s, 0))
    ||| (s.len() >= 3 && placeholder_at(s, 0) && is_ident_start(s[2]) && all_ident(s.skip(3)))
    ||| (s.len() >= 1 && is_ident_start(s[0]) && all_ident(s.skip(1)))
    ||| (s.len() >= 5 && is_ident_start(s[0]) && s[s.len() - 4] == '['
        && placeholder_at(s, s.len() - 3) && s[s.len() - 1] == ']'
        && all_ident(s.subrange(1, s.len() - 4)))
    ||| (s.len() >= 1 && is_ident_start(s[0]) && exists|k: int|
        1 <= k && #[trigger] placeholder_at(s, k) && all_ident(s.subrange(1, k))
            && all_ident(s.skip(k + 2)))
}

/// The pattern of plain names.
pub const NAME_PATTERN: &'static str = "^[_A-Za-z0-9]*$";

/// The pattern of names that may carry the `%s` placeholder.
pub const DIMABLE_PATTERN: &'static str = "^(((%s)|(%s)[_A-Za-z]{1}[_A-Za-z0-9]*)|([_A-Za-z]{1}[_A-Za-z0-9]*(\\[%s\\])?)|([_A-Za-z]{1}[_A-Za-z0-9]*(%s)?[_A-Za-z0-9]*))$";

/// `regex::Regex::new(pattern).is_match(text)` for the two name patterns of
/// this crate. The contract states the language of each pattern: a plain
/// name is made of `_`, ASCII letters and digits; a dimable name is
/// described by `dimable_name`.
#[verifier::external_body]
fn regex_is_match(pattern: &str, text: &str) -> (r: bool)
    requires
        pattern@ == NAME_PATTERN@ || pattern@ == DIMABLE_PATTERN@,
    ensures
        pattern@ == NAME_PATTERN@ ==> r == all_ident(text@),
        pattern@ == DIMABLE_PATTERN@ ==> r == dimable_name(text@),
{
    regex::Regex::new(pattern).unwrap().is_match(text)
}

/// The error of a refused name.
pub open spec fn name_error(name: Seq<char>, tag: Seq<char>, e: NameError) -> bool {
    match e {
        NameError::Invalid(n, t) => n@ == name && t@ == tag,
    }
}

/// Checks a plain name: `_`, ASCII letters and digits only.
pub fn check_name(name: &str, tag: &str) -> (r: Result<(), NameError>)
    ensures
        r is Ok <==> all_ident(name@),
        r matches Err(e) ==> name_error(name@, tag@, e),
{
    if regex_is_match(NAME_PATTERN, name) {
        Ok(())
    } else {
        Err(NameError::Invalid(owned(name), owned(tag)))
    }
}

/// Checks a name that may carry the `%s` placeholder.
pub fn check_dimable_name(name: &str, tag: &str) -> (r: Result<(), NameError>)
    ensures
        r is Ok <==> dimable_name(name@),
        r matches Err(e) ==> name_error(name@, tag@, e),
{
    if regex_is_match(DIMABLE_PATTERN, name) {
        Ok(())
    } else {
        Err(NameError::Invalid(owned(name), owned(tag)))
    }
}

/// Every `.`-separated part of a derived name is a dimable name.
pub open spec fn derived_name(name: Seq<char>) -> bool {
    forall|i: int| 0 <= i < split_spec(name, '.').len() ==> dimable_name(
        #[trigger] split_spec(name, '.')[i],
    )
}

/// Checks a name that refers to another element, such as `PERIPH.REG`:
/// each `.`-separated part must be a dimable name. The error names the
/// first part that is not.
pub fn check_derived_name(name: &str, tag: &str) -> (r: Result<(), NameError>)
    ensures
        r is Ok <==> derived_name(name@),
        r matches Err(e) ==> exists|i: int|
            0 <= i < split_spec(name@, '.').len() && !dimable_name(
                #[trigger] split_spec(name@, '.')[i],
            ) && (forall|j: int| 0 <= j < i ==> dimable_name(split_spec(name@, '.')[j]))
                && name_error(split_spec(name@, '.')[i], tag@, e),
{
    let chars = chars_of(name);
    let parts = split_chars(chars.as_slice(), '.');
    let ghost sp = split_spec(name@, '.');
    let mut i: usize = 0;
    while i < parts.len()
        invariant
            i <= parts@.len(),
            strings_view(parts@) =~= sp,
            sp == split_spec(name@, '.'),
            forall|j: int| 0 <= j < i ==> dimable_name(sp[j]),
        decreases parts@.len() - i,
    {
        let res = check_dimable_name(parts[i].as_str(), tag);
        match res {
            Ok(()) => {},
            Err(e) => {
                assert(sp[i as int] == parts@[i as int]@);
                return Err(e);
            },
        }
        i += 1;
    }
    Ok(())
}


/// Get SVD element name
pub trait Name {
    /// The name, as characters.
    spec fn name_spec(&self) -> Seq<char>;

    /// Get name
    fn name(&self) -> (r: &str)
        ensures
            r@ == self.name_spec(),
    ;
}

/// Get SVD element description
pub trait Description {
    /// The description, as characters.
    spec fn description_spec(&self) -> Option<Seq<char>>;

    /// Get description
    fn description(&self) -> (r: Option<&str>)
        ensures
            match r {
                Some(d) => self.description_spec() == Some(d@),
                None => self.description_spec() is None,
            },
    ;
}

// ---------------------------------------------------------------------------
// Empty values
// ---------------------------------------------------------------------------

/// An empty text counts as no text.
pub open spec fn nonempty_text(o: Option<String>) -> Option<String> {
    match o {
        Some(s) => if s@.len() == 0 { None } else { Some(s) },
        None => None,
    }
}

/// An empty list counts as no list.
pub open spec fn nonempty_list<T>(o: Option<Vec<T>>) -> Option<Vec<T>> {
    match o {
        Some(v) => if v@.len() == 0 { None } else { Some(v) },
        None => None,
    }
}

/// The contents of an optional list.
pub open spec fn opt_seq<T>(o: Option<Vec<T>>) -> Option<Seq<T>> {
    match o {
        Some(v) => Some(v@),
        None => None,
    }
}

/// An empty sequence counts as no sequence.
pub open spec fn nonempty_seq<T>(o: Option<Seq<T>>) -> Option<Seq<T>> {
    match o {
        Some(v) => if v.len() == 0 { None } else { Some(v) },
        None => None,
    }
}

/// Turns an empty text into `None`.
pub fn empty_to_none(o: Option<String>) -> (r: Option<String>)
    ensures
        r == nonempty_text(o),
{
    match o {
        Some(s) => if s.as_str().is_empty() { None } else { Some(s) },
        None => None,
    }
}

/// Turns an empty list into `None`.
pub fn empty_vec_to_none<T>(o: Option<Vec<T>>) -> (r: Option<Vec<T>>)
    ensures
        r == nonempty_list(o),
        opt_seq(r) == nonempty_seq(opt_seq(o)),
{
    match o {
        Some(v) => if v.len() == 0 { None } else { Some(v) },
        None => None,
    }
}

} // verus!
