use vstd::prelude::*;

use crate::array::{descriptions, expand_name, names};
use crate::dimelement::{indexes_cover, indexes_spec};
use crate::enumeratedvalues::{clone_enumerations, EnumeratedValuesModel};
use crate::text::{owned, strings_view};
use crate::writeconstraint::WriteConstraintRange;
use crate::{
    bitrange, check_derived_name, check_dimable_name, derived_name, dimable_name, empty_to_none,
    is_uninit, name_error, nonempty_text, outcome, Access, BitRange, BuildError, Description,
    DimElement, EnumeratedValues, MaybeArray, ModifiedWriteValues, Name, ReadAction, SvdError, Usage,
    ValidateLevel, WriteConstraint,
};

verus! {

/// Describes a field or fields of a [register](crate::RegisterInfo).
pub type Field = MaybeArray<FieldInfo>;

/// Errors for [`FieldInfo::validate`]
#[derive(Clone, Copy, Debug, PartialEq, Eq, Structural)]
pub enum Error {
    /// The enumerated value is not recognized by svd-rs.
    IncompatibleEnumeratedValues,
}

/// A partition of a [register](crate::RegisterInfo)
#[derive(Debug, PartialEq, Eq)]
pub struct FieldInfo {
    /// Name string used to identify the field.
    /// Field names must be unique within a register
    pub name: String,
    /// String describing the details of the register
    pub description: Option<String>,
    /// Bit position of the field within the register
    pub bit_range: BitRange,
    /// Predefined strings set the access type.
    /// The element can be omitted if access rights get inherited from parent elements
    pub access: Option<Access>,
    /// Describe the manipulation of data written to a field.
    pub modified_write_values: Option<ModifiedWriteValues>,
    /// Specifies the subset of allowed write values
    pub write_constraint: Option<WriteConstraint>,
    /// If set, it specifies the side effect following a read operation.
    /// If not set, the field is not modified
    pub read_action: Option<ReadAction>,
    /// Describes the field
    pub enumerated_values: Vec<EnumeratedValues>,
    /// Specify the field name from which to inherit data.
    /// Elements specified subsequently override inherited values
    pub derived_from: Option<String>,
}

/// The contents of a [`FieldInfo`], each enumeration by its contents.
pub struct FieldInfoModel {
    /// The name
    pub name: Seq<char>,
    /// The description
    pub description: Option<Seq<char>>,
    /// The bit range
    pub bit_range: BitRange,
    /// The access
    pub access: Option<Access>,
    /// The modified write values
    pub modified_write_values: Option<ModifiedWriteValues>,
    /// The write constraint
    pub write_constraint: Option<WriteConstraint>,
    /// The read action
    pub read_action: Option<ReadAction>,
    /// The enumerations
    pub enumerated_values: Seq<EnumeratedValuesModel>,
    /// The element this one derives from
    pub derived_from: Option<Seq<char>>,
}

/// The characters of an optional text.
pub open spec fn opt_chars(o: Option<String>) -> Option<Seq<char>> {
    match o {
        Some(s) => Some(s@),
        None => None,
    }
}

/// The contents of a list of enumerations.
pub open spec fn evs_model(v: Seq<EnumeratedValues>) -> Seq<EnumeratedValuesModel> {
    Seq::new(v.len(), |i: int| v[i]@)
}

impl View for FieldInfo {
    type V = FieldInfoModel;

    open spec fn view(&self) -> FieldInfoModel {
        FieldInfoModel {
            name: self.name@,
            description: opt_chars(self.description),
            bit_range: self.bit_range,
            access: self.access,
            modified_write_values: self.modified_write_values,
            write_constraint: self.write_constraint,
            read_action: self.read_action,
            enumerated_values: evs_model(self.enumerated_values@),
            derived_from: opt_chars(self.derived_from),
        }
    }
}

/// A copy of an optional text.
pub fn clone_opt(o: &Option<String>) -> (r: Option<String>)
    ensures
        r == *o,
{
    match o {
        Some(s) => Some(s.clone()),
        None => None,
    }
}

impl Clone for FieldInfo {
    fn clone(&self) -> (r: Self)
        ensures
            r@ == self@,
    {
        let evs = clone_enumerations(&self.enumerated_values);
        let r = FieldInfo {
            name: self.name.clone(),
            description: clone_opt(&self.description),
            bit_range: self.bit_range,
            access: self.access,
            modified_write_values: self.modified_write_values,
            write_constraint: self.write_constraint,
            read_action: self.read_action,
            enumerated_values: evs,
            derived_from: clone_opt(&self.derived_from),
        };
        assert(r@.enumerated_values =~= self@.enumerated_values);
        r
    }
}

/// Builder for [`FieldInfo`]
#[derive(Debug, PartialEq, Eq)]
pub struct FieldInfoBuilder {
    /// The name, if set.
    pub name: Option<String>,
    /// The description, if set.
    pub description: Option<String>,
    /// The bit range, if known.
    pub bit_range: Option<BitRange>,
    /// A bit offset that waits for its width.
    pub bit_offset: Option<u32>,
    /// A bit width that waits for its offset.
    pub bit_width: Option<u32>,
    /// The access, if set.
    pub access: Option<Access>,
    /// The modified write values, if set.
    pub modified_write_values: Option<ModifiedWriteValues>,
    /// The write constraint, if set.
    pub write_constraint: Option<WriteConstraint>,
    /// The read action, if set.
    pub read_action: Option<ReadAction>,
    /// The enumerations, if set.
    pub enumerated_values: Option<Vec<EnumeratedValues>>,
    /// The element this one derives from, if set.
    pub derived_from: Option<String>,
}

impl Default for FieldInfoBuilder {
    fn default() -> (r: Self)
        ensures
            r == FieldInfoBuilder::empty(),
    {
        FieldInfoBuilder {
            name: None,
            description: None,
            bit_range: None,
            bit_offset: None,
            bit_width: None,
            access: None,
            modified_write_values: None,
            write_constraint: None,
            read_action: None,
            enumerated_values: None,
            derived_from: None,
        }
    }
}

impl From<FieldInfo> for FieldInfoBuilder {
    fn from(f: FieldInfo) -> (r: Self)
        ensures
            r == Self::from_info(f),
    {
        FieldInfoBuilder {
            name: Some(f.name),
            description: f.description,
            bit_range: Some(f.bit_range),
            bit_offset: None,
            bit_width: None,
            access: f.access,
            modified_write_values: f.modified_write_values,
            write_constraint: f.write_constraint,
            read_action: f.read_action,
            enumerated_values: Some(f.enumerated_values),
            derived_from: f.derived_from,
        }
    }
}

impl vstd::std_specs::convert::FromSpecImpl<FieldInfo> for FieldInfoBuilder {
    open spec fn obeys_from_spec() -> bool {
        true
    }

    open spec fn from_spec(f: FieldInfo) -> Self {
        Self::from_info(f)
    }
}

/// The contents of an optional list of enumerations.
pub open spec fn opt_evs(o: Option<Vec<EnumeratedValues>>) -> Option<Seq<EnumeratedValuesModel>> {
    match o {
        Some(v) => Some(evs_model(v@)),
        None => None,
    }
}

impl FieldInfoBuilder {
    /// The builder that sets nothing.
    pub open spec fn empty() -> Self {
        FieldInfoBuilder {
            name: None,
            description: None,
            bit_range: None,
            bit_offset: None,
            bit_width: None,
            access: None,
            modified_write_values: None,
            write_constraint: None,
            read_action: None,
            enumerated_values: None,
            derived_from: None,
        }
    }

    /// The builder that holds every value of `f`.
    pub open spec fn from_info(f: FieldInfo) -> Self {
        FieldInfoBuilder {
            name: Some(f.name),
            description: f.description,
            bit_range: Some(f.bit_range),
            bit_offset: None,
            bit_width: None,
            access: f.access,
            modified_write_values: f.modified_write_values,
            write_constraint: f.write_constraint,
            read_action: f.read_action,
            enumerated_values: Some(f.enumerated_values),
            derived_from: f.derived_from,
        }
    }

    /// The field that a builder with a name and a bit range describes: an
    /// empty description counts as none, unset enumerations as none.
    pub open spec fn built(self) -> FieldInfoModel {
        FieldInfoModel {
            name: self.name->0@,
            description: opt_chars(nonempty_text(self.description)),
            bit_range: self.bit_range->0,
            access: self.access,
            modified_write_values: self.modified_write_values,
            write_constraint: self.write_constraint,
            read_action: self.read_action,
            enumerated_values: match opt_evs(self.enumerated_values) {
                Some(v) => v,
                None => Seq::empty(),
            },
            derived_from: opt_chars(self.derived_from),
        }
    }

    /// Set the name of the field
    pub fn name(self, value: String) -> (r: Self)
        ensures
            r == (FieldInfoBuilder { name: Some(value), ..self }),
    {
        FieldInfoBuilder { name: Some(value), ..self }
    }

    /// Set the description of the field
    pub fn description(self, value: Option<String>) -> (r: Self)
        ensures
            r == (FieldInfoBuilder { description: value, ..self }),
    {
        FieldInfoBuilder { description: value, ..self }
    }

    /// The builder with the bit offset `value` set: in the bit range where
    /// there is one, else joined with a pending width into a range, else
    /// pending.
    pub open spec fn with_offset(self, value: u32) -> Self {
        match self.bit_range {
            Some(br) => FieldInfoBuilder { bit_range: Some(BitRange { offset: value, ..br }), ..self },
            None => match self.bit_width {
                Some(w) => FieldInfoBuilder {
                    bit_range: Some(BitRange::offset_width_spec(value, w)),
                    bit_width: None,
                    ..self
                },
                None => FieldInfoBuilder { bit_offset: Some(value), ..self },
            },
        }
    }

    /// The builder with the bit width `value` set: in the bit range where
    /// there is one, else joined with a pending offset into a range, else
    /// pending.
    pub open spec fn with_width(self, value: u32) -> Self {
        match self.bit_range {
            Some(br) => FieldInfoBuilder { bit_range: Some(BitRange { width: value, ..br }), ..self },
            None => match self.bit_offset {
                Some(o) => FieldInfoBuilder {
                    bit_range: Some(BitRange::offset_width_spec(o, value)),
                    bit_offset: None,
                    ..self
                },
                None => FieldInfoBuilder { bit_width: Some(value), ..self },
            },
        }
    }

    /// Setting the bit offset and the bit width of a builder without a bit
    /// range gives the same builder in either order: one whose range has
    /// that offset and width, with nothing pending.
    pub proof fn lemma_offset_width_any_order(self, o: u32, w: u32)
        requires
            self.bit_range is None,
            self.bit_offset is None,
            self.bit_width is None,
        ensures
            self.with_offset(o).with_width(w) == self.with_width(w).with_offset(o),
            self.with_offset(o).with_width(w) == (FieldInfoBuilder {
                bit_range: Some(BitRange::offset_width_spec(o, w)),
                ..self
            }),
    {
    }

    /// Set the bit range of the field; a pending offset or width is dropped.
    pub fn bit_range(self, value: BitRange) -> (r: Self)
        ensures
            r == (FieldInfoBuilder { bit_range: Some(value), bit_offset: None, bit_width: None, ..self }),
    {
        FieldInfoBuilder { bit_range: Some(value), bit_offset: None, bit_width: None, ..self }
    }

    /// Set the bit offset of the field. With a bit range, its offset is
    /// replaced. Otherwise, with a pending width, the range is complete;
    /// else the offset waits (see [`Self::with_offset`]).
    pub fn bit_offset(self, value: u32) -> (r: Self)
        ensures
            r == self.with_offset(value),
    {
        let mut b = self;
        match b.bit_range {
            Some(br) => {
                b.bit_range = Some(BitRange { offset: value, ..br });
            },
            None => match b.bit_width {
                Some(width) => {
                    b.bit_range = Some(BitRange::from_offset_width(value, width));
                    b.bit_width = None;
                },
                None => {
                    b.bit_offset = Some(value);
                },
            },
        }
        b
    }

    /// Set the bit width of the field. With a bit range, its width is
    /// replaced. Otherwise, with a pending offset, the range is complete;
    /// else the width waits (see [`Self::with_width`]).
    pub fn bit_width(self, value: u32) -> (r: Self)
        ensures
            r == self.with_width(value),
    {
        let mut b = self;
        match b.bit_range {
            Some(br) => {
                b.bit_range = Some(BitRange { width: value, ..br });
            },
            None => match b.bit_offset {
                Some(offset) => {
                    b.bit_range = Some(BitRange::from_offset_width(offset, value));
                    b.bit_offset = None;
                },
                None => {
                    b.bit_width = Some(value);
                },
            },
        }
        b
    }

    /// Set the access of the field
    pub fn access(self, value: Option<Access>) -> (r: Self)
        ensures
            r == (FieldInfoBuilder { access: value, ..self }),
    {
        FieldInfoBuilder { access: value, ..self }
    }

    /// Set the modified write values of the field
    pub fn modified_write_values(self, value: Option<ModifiedWriteValues>) -> (r: Self)
        ensures
            r == (FieldInfoBuilder { modified_write_values: value, ..self }),
    {
        FieldInfoBuilder { modified_write_values: value, ..self }
    }

    /// Set the write constraint of the field
    pub fn write_constraint(self, value: Option<WriteConstraint>) -> (r: Self)
        ensures
            r == (FieldInfoBuilder { write_constraint: value, ..self }),
    {
        FieldInfoBuilder { write_constraint: value, ..self }
    }

    /// Set the read action of the register.
    pub fn read_action(self, value: Option<ReadAction>) -> (r: Self)
        ensures
            r == (FieldInfoBuilder { read_action: value, ..self }),
    {
        FieldInfoBuilder { read_action: value, ..self }
    }

    /// Set the enumerated values of the field
    pub fn enumerated_values(self, value: Vec<EnumeratedValues>) -> (r: Self)
        ensures
            r == (FieldInfoBuilder { enumerated_values: Some(value), ..self }),
    {
        FieldInfoBuilder { enumerated_values: Some(value), ..self }
    }

    /// Set the derived_from attribute of the field
    pub fn derived_from(self, value: Option<String>) -> (r: Self)
        ensures
            r == (FieldInfoBuilder { derived_from: value, ..self }),
    {
        FieldInfoBuilder { derived_from: value, ..self }
    }

    /// Validate and build a [`FieldInfo`]: a name, then a bit range, must be
    /// known.
    pub fn build(self, lvl: ValidateLevel) -> (r: Result<FieldInfo, SvdError>)
        ensures
            self.name is None ==> is_uninit(r, "name"@),
            self.name is Some && self.bit_range is None ==> is_uninit(r, "bit_range"@),
            self.name is Some && self.bit_range is Some ==> {
                &&& self.built().validate_spec(lvl, outcome(r))
                &&& r matches Ok(f) ==> f@ == self.built()
            },
    {
        let name = match self.name {
            Some(n) => n,
            None => return Err(SvdError::Build(BuildError::Uninitialized(owned("name")))),
        };
        let bit_range = match self.bit_range {
            Some(b) => b,
            None => return Err(SvdError::Build(BuildError::Uninitialized(owned("bit_range")))),
        };
        let field = FieldInfo {
            name,
            description: empty_to_none(self.description),
            bit_range,
            access: self.access,
            modified_write_values: self.modified_write_values,
            write_constraint: self.write_constraint,
            read_action: self.read_action,
            enumerated_values: match self.enumerated_values {
                Some(v) => v,
                None => Vec::new(),
            },
            derived_from: self.derived_from,
        };
        assert(field@.enumerated_values =~= self.built().enumerated_values);
        match field.validate(lvl) {
            Ok(()) => Ok(field),
            Err(e) => Err(e),
        }
    }
}

/// The values that fit in a field `width` bits wide.
pub open spec fn width_range(width: u32) -> core::ops::Range<u64> {
    core::ops::Range { start: 0u64, end: vstd::arithmetic::power2::pow2(width as nat) as u64 }
}

/// A usage that can stand on the read side of a pair.
pub open spec fn read_side(u: Option<Usage>) -> bool {
    u is None || u == Some(Usage::Read)
}

/// A usage that can stand on the write side of a pair.
pub open spec fn write_side(u: Option<Usage>) -> bool {
    u is None || u == Some(Usage::Write)
}

/// A field may hold no enumeration, one, or a pair of a read one and a
/// write one (in either order).
pub open spec fn compatible_enumerations(evs: Seq<EnumeratedValuesModel>) -> bool {
    ||| evs.len() <= 1
    ||| (evs.len() == 2 && read_side(evs[0].usage_spec()) && write_side(evs[1].usage_spec()))
    ||| (evs.len() == 2 && read_side(evs[1].usage_spec()) && write_side(evs[0].usage_spec()))
}

/// Every value of the enumeration lies in `range`.
pub open spec fn fits(e: EnumeratedValuesModel, range: core::ops::Range<u64>) -> bool {
    e.check_range_spec(range, Ok(()))
}

impl FieldInfoModel {
    /// `r` is what [`FieldInfo::validate`] answers. With validation enabled,
    /// in this order: under strict validation the name must be a dimable
    /// name and a `derivedFrom` a derived name; the width must not be zero;
    /// every enumerated value of a field narrower than 64 bits must fit in
    /// it; under strict validation the enumerations must be compatible; a
    /// range write constraint of a field narrower than 64 bits must be
    /// ordered and fit in it.
    pub open spec fn validate_spec(self, lvl: ValidateLevel, r: Result<(), SvdError>) -> bool {
        let w = self.bit_range.width;
        let evs = self.enumerated_values;
        if lvl == ValidateLevel::Disabled {
            r is Ok
        } else if lvl == ValidateLevel::Strict && !dimable_name(self.name) {
            r matches Err(SvdError::Name(e)) && name_error(self.name, "name"@, e)
        } else if lvl == ValidateLevel::Strict && self.derived_from is Some && !derived_name(
            self.derived_from->0,
        ) {
            r matches Err(SvdError::Name(_))
        } else if w == 0 {
            r == Err::<(), SvdError>(SvdError::BitRange(bitrange::Error::ZeroWidth))
        } else if w < 64 && exists|i: int| 0 <= i < evs.len() && !fits(#[trigger] evs[i], width_range(w)) {
            r is Err && exists|i: int|
                0 <= i < evs.len() && !fits(#[trigger] evs[i], width_range(w)) && (forall|j: int|
                    0 <= j < i ==> fits(evs[j], width_range(w))) && evs[i].check_range_spec(
                    width_range(w),
                    r,
                )
        } else if lvl == ValidateLevel::Strict && !compatible_enumerations(evs) {
            r == Err::<(), SvdError>(SvdError::Field(Error::IncompatibleEnumeratedValues))
        } else if w < 64 && (self.write_constraint matches Some(WriteConstraint::Range(c)) && c.check_range_spec(
            width_range(w),
        ) is Err) {
            r == self.write_constraint->0->Range_0.check_range_spec(width_range(w))
        } else {
            r is Ok
        }
    }

    /// `r` is what [`FieldInfo::validate_all`] answers: each enumeration in
    /// turn, then the field itself.
    pub open spec fn validate_all_spec(self, lvl: ValidateLevel, r: Result<(), SvdError>) -> bool {
        let evs = self.enumerated_values;
        if exists|i: int| 0 <= i < evs.len() && !(#[trigger] evs[i]).validate_all_spec(lvl, Ok(())) {
            r is Err && exists|i: int|
                0 <= i < evs.len() && !(#[trigger] evs[i]).validate_all_spec(lvl, Ok(())) && (forall|j: int|
                    0 <= j < i ==> evs[j].validate_all_spec(lvl, Ok(()))) && evs[i].validate_all_spec(lvl, r)
        } else {
            self.validate_spec(lvl, r)
        }
    }

    /// The field after a modification. Each value that the builder sets
    /// replaces the current one (an empty description counting as none); a
    /// pending offset or width then replaces that of the bit range. A builder
    /// that derives from another field also clears the modified write
    /// values, the write constraint and the enumerations, and ignores those
    /// it sets and its read action.
    pub open spec fn modified(self, b: FieldInfoBuilder) -> FieldInfoModel {
        let base = if b.bit_range is Some { b.bit_range->0 } else { self.bit_range };
        let derived = b.derived_from is Some;
        FieldInfoModel {
            name: if b.name is Some { b.name->0@ } else { self.name },
            description: if b.description is Some { opt_chars(nonempty_text(b.description)) } else { self.description },
            bit_range: BitRange {
                offset: if b.bit_offset is Some { b.bit_offset->0 } else { base.offset },
                width: if b.bit_width is Some { b.bit_width->0 } else { base.width },
                range_type: base.range_type,
            },
            access: if b.access is Some { b.access } else { self.access },
            derived_from: if derived { opt_chars(b.derived_from) } else { self.derived_from },
            modified_write_values: if derived { None } else if b.modified_write_values is Some {
                b.modified_write_values
            } else {
                self.modified_write_values
            },
            write_constraint: if derived { None } else if b.write_constraint is Some {
                b.write_constraint
            } else {
                self.write_constraint
            },
            read_action: if !derived && b.read_action is Some { b.read_action } else { self.read_action },
            enumerated_values: if derived { Seq::empty() } else if b.enumerated_values is Some {
                opt_evs(b.enumerated_values)->0
            } else {
                self.enumerated_values
            },
        }
    }

    /// The enumeration used for `usage` when there are one or two: the first
    /// whose usage is `usage`.
    pub open spec fn first_with_usage(self, usage: Usage, i: int) -> bool {
        &&& 0 <= i < self.enumerated_values.len()
        &&& self.enumerated_values[i].usage_spec() == Some(usage)
        &&& forall|j: int| 0 <= j < i ==> self.enumerated_values[j].usage_spec() != Some(usage)
    }
}

/// Bit `b` of `x` is set.
pub open spec fn bit_set(x: u64, b: u64) -> bool {
    (x >> b) & 1u64 == 1u64
}

/// Two words with the same bits are equal.
pub proof fn lemma_same_bits(x: u64, y: u64)
    requires
        forall|b: u64| b < 64 ==> (bit_set(x, b) <==> bit_set(y, b)),
    ensures
        x == y,
{
    assert(bit_set(x, 0u64) == bit_set(y, 0u64));
    assert(bit_set(x, 1u64) == bit_set(y, 1u64));
    assert(bit_set(x, 2u64) == bit_set(y, 2u64));
    assert(bit_set(x, 3u64) == bit_set(y, 3u64));
    assert(bit_set(x, 4u64) == bit_set(y, 4u64));
    assert(bit_set(x, 5u64) == bit_set(y, 5u64));
    assert(bit_set(x, 6u64) == bit_set(y, 6u64));
    assert(bit_set(x, 7u64) == bit_set(y, 7u64));
    assert(bit_set(x, 8u64) == bit_set(y, 8u64));
    assert(bit_set(x, 9u64) == bit_set(y, 9u64));
    assert(bit_set(x, 10u64) == bit_set(y, 10u64));
    assert(bit_set(x, 11u64) == bit_set(y, 11u64));
    assert(bit_set(x, 12u64) == bit_set(y, 12u64));
    assert(bit_set(x, 13u64) == bit_set(y, 13u64));
    assert(bit_set(x, 14u64) == bit_set(y, 14u64));
    assert(bit_set(x, 15u64) == bit_set(y, 15u64));
    assert(bit_set(x, 16u64) == bit_set(y, 16u64));
    assert(bit_set(x, 17u64) == bit_set(y, 17u64));
    assert(bit_set(x, 18u64) == bit_set(y, 18u64));
    assert(bit_set(x, 19u64) == bit_set(y, 19u64));
    assert(bit_set(x, 20u64) == bit_set(y, 20u64));
    assert(bit_set(x, 21u64) == bit_set(y, 21u64));
    assert(bit_set(x, 22u64) == bit_set(y, 22u64));
    assert(bit_set(x, 23u64) == bit_set(y, 23u64));
    assert(bit_set(x, 24u64) == bit_set(y, 24u64));
    assert(bit_set(x, 25u64) == bit_set(y, 25u64));
    assert(bit_set(x, 26u64) == bit_set(y, 26u64));
    assert(bit_set(x, 27u64) == bit_set(y, 27u64));
    assert(bit_set(x, 28u64) == bit_set(y, 28u64));
    assert(bit_set(x, 29u64) == bit_set(y, 29u64));
    assert(bit_set(x, 30u64) == bit_set(y, 30u64));
    assert(bit_set(x, 31u64) == bit_set(y, 31u64));
    assert(bit_set(x, 32u64) == bit_set(y, 32u64));
    assert(bit_set(x, 33u64) == bit_set(y, 33u64));
    assert(bit_set(x, 34u64) == bit_set(y, 34u64));
    assert(bit_set(x, 35u64) == bit_set(y, 35u64));
    assert(bit_set(x, 36u64) == bit_set(y, 36u64));
    assert(bit_set(x, 37u64) == bit_set(y, 37u64));
    assert(bit_set(x, 38u64) == bit_set(y, 38u64));
    assert(bit_set(x, 39u64) == bit_set(y, 39u64));
    assert(bit_set(x, 40u64) == bit_set(y, 40u64));
    assert(bit_set(x, 41u64) == bit_set(y, 41u64));
    assert(bit_set(x, 42u64) == bit_set(y, 42u64));
    assert(bit_set(x, 43u64) == bit_set(y, 43u64));
    assert(bit_set(x, 44u64) == bit_set(y, 44u64));
    assert(bit_set(x, 45u64) == bit_set(y, 45u64));
    assert(bit_set(x, 46u64) == bit_set(y, 46u64));
    assert(bit_set(x, 47u64) == bit_set(y, 47u64));
    assert(bit_set(x, 48u64) == bit_set(y, 48u64));
    assert(bit_set(x, 49u64) == bit_set(y, 49u64));
    assert(bit_set(x, 50u64) == bit_set(y, 50u64));
    assert(bit_set(x, 51u64) == bit_set(y, 51u64));
    assert(bit_set(x, 52u64) == bit_set(y, 52u64));
    assert(bit_set(x, 53u64) == bit_set(y, 53u64));
    assert(bit_set(x, 54u64) == bit_set(y, 54u64));
    assert(bit_set(x, 55u64) == bit_set(y, 55u64));
    assert(bit_set(x, 56u64) == bit_set(y, 56u64));
    assert(bit_set(x, 57u64) == bit_set(y, 57u64));
    assert(bit_set(x, 58u64) == bit_set(y, 58u64));
    assert(bit_set(x, 59u64) == bit_set(y, 59u64));
    assert(bit_set(x, 60u64) == bit_set(y, 60u64));
    assert(bit_set(x, 61u64) == bit_set(y, 61u64));
    assert(bit_set(x, 62u64) == bit_set(y, 62u64));
    assert(bit_set(x, 63u64) == bit_set(y, 63u64));
    assert((((x >> 0u64) & 1u64 == 1u64) == ((y >> 0u64) & 1u64 == 1u64)) && (((x >> 1u64) & 1u64 == 1u64) == ((y >> 1u64) & 1u64 == 1u64)) && (((x >> 2u64) & 1u64 == 1u64) == ((y >> 2u64) & 1u64 == 1u64)) && (((x >> 3u64) & 1u64 == 1u64) == ((y >> 3u64) & 1u64 == 1u64)) && (((x >> 4u64) & 1u64 == 1u64) == ((y >> 4u64) & 1u64 == 1u64)) && (((x >> 5u64) & 1u64 == 1u64) == ((y >> 5u64) & 1u64 == 1u64)) && (((x >> 6u64) & 1u64 == 1u64) == ((y >> 6u64) & 1u64 == 1u64)) && (((x >> 7u64) & 1u64 == 1u64) == ((y >> 7u64) & 1u64 == 1u64)) && (((x >> 8u64) & 1u64 == 1u64) == ((y >> 8u64) & 1u64 == 1u64)) && (((x >> 9u64) & 1u64 == 1u64) == ((y >> 9u64) & 1u64 == 1u64)) && (((x >> 10u64) & 1u64 == 1u64) == ((y >> 10u64) & 1u64 == 1u64)) && (((x >> 11u64) & 1u64 == 1u64) == ((y >> 11u64) & 1u64 == 1u64)) && (((x >> 12u64) & 1u64 == 1u64) == ((y >> 12u64) & 1u64 == 1u64)) && (((x >> 13u64) & 1u64 == 1u64) == ((y >> 13u64) & 1u64 == 1u64)) && (((x >> 14u64) & 1u64 == 1u64) == ((y >> 14u64) & 1u64 == 1u64)) && (((x >> 15u64) & 1u64 == 1u64) == ((y >> 15u64) & 1u64 == 1u64)) && (((x >> 16u64) & 1u64 == 1u64) == ((y >> 16u64) & 1u64 == 1u64)) && (((x >> 17u64) & 1u64 == 1u64) == ((y >> 17u64) & 1u64 == 1u64)) && (((x >> 18u64) & 1u64 == 1u64) == ((y >> 18u64) & 1u64 == 1u64)) && (((x >> 19u64) & 1u64 == 1u64) == ((y >> 19u64) & 1u64 == 1u64)) && (((x >> 20u64) & 1u64 == 1u64) == ((y >> 20u64) & 1u64 == 1u64)) && (((x >> 21u64) & 1u64 == 1u64) == ((y >> 21u64) & 1u64 == 1u64)) && (((x >> 22u64) & 1u64 == 1u64) == ((y >> 22u64) & 1u64 == 1u64)) && (((x >> 23u64) & 1u64 == 1u64) == ((y >> 23u64) & 1u64 == 1u64)) && (((x >> 24u64) & 1u64 == 1u64) == ((y >> 24u64) & 1u64 == 1u64)) && (((x >> 25u64) & 1u64 == 1u64) == ((y >> 25u64) & 1u64 == 1u64)) && (((x >> 26u64) & 1u64 == 1u64) == ((y >> 26u64) & 1u64 == 1u64)) && (((x >> 27u64) & 1u64 == 1u64) == ((y >> 27u64) & 1u64 == 1u64)) && (((x >> 28u64) & 1u64 == 1u64) == ((y >> 28u64) & 1u64 == 1u64)) && (((x >> 29u64) & 1u64 == 1u64) == ((y >> 29u64) & 1u64 == 1u64)) && (((x >> 30u64) & 1u64 == 1u64) == ((y >> 30u64) & 1u64 == 1u64)) && (((x >> 31u64) & 1u64 == 1u64) == ((y >> 31u64) & 1u64 == 1u64)) && (((x >> 32u64) & 1u64 == 1u64) == ((y >> 32u64) & 1u64 == 1u64)) && (((x >> 33u64) & 1u64 == 1u64) == ((y >> 33u64) & 1u64 == 1u64)) && (((x >> 34u64) & 1u64 == 1u64) == ((y >> 34u64) & 1u64 == 1u64)) && (((x >> 35u64) & 1u64 == 1u64) == ((y >> 35u64) & 1u64 == 1u64)) && (((x >> 36u64) & 1u64 == 1u64) == ((y >> 36u64) & 1u64 == 1u64)) && (((x >> 37u64) & 1u64 == 1u64) == ((y >> 37u64) & 1u64 == 1u64)) && (((x >> 38u64) & 1u64 == 1u64) == ((y >> 38u64) & 1u64 == 1u64)) && (((x >> 39u64) & 1u64 == 1u64) == ((y >> 39u64) & 1u64 == 1u64)) && (((x >> 40u64) & 1u64 == 1u64) == ((y >> 40u64) & 1u64 == 1u64)) && (((x >> 41u64) & 1u64 == 1u64) == ((y >> 41u64) & 1u64 == 1u64)) && (((x >> 42u64) & 1u64 == 1u64) == ((y >> 42u64) & 1u64 == 1u64)) && (((x >> 43u64) & 1u64 == 1u64) == ((y >> 43u64) & 1u64 == 1u64)) && (((x >> 44u64) & 1u64 == 1u64) == ((y >> 44u64) & 1u64 == 1u64)) && (((x >> 45u64) & 1u64 == 1u64) == ((y >> 45u64) & 1u64 == 1u64)) && (((x >> 46u64) & 1u64 == 1u64) == ((y >> 46u64) & 1u64 == 1u64)) && (((x >> 47u64) & 1u64 == 1u64) == ((y >> 47u64) & 1u64 == 1u64)) && (((x >> 48u64) & 1u64 == 1u64) == ((y >> 48u64) & 1u64 == 1u64)) && (((x >> 49u64) & 1u64 == 1u64) == ((y >> 49u64) & 1u64 == 1u64)) && (((x >> 50u64) & 1u64 == 1u64) == ((y >> 50u64) & 1u64 == 1u64)) && (((x >> 51u64) & 1u64 == 1u64) == ((y >> 51u64) & 1u64 == 1u64)) && (((x >> 52u64) & 1u64 == 1u64) == ((y >> 52u64) & 1u64 == 1u64)) && (((x >> 53u64) & 1u64 == 1u64) == ((y >> 53u64) & 1u64 == 1u64)) && (((x >> 54u64) & 1u64 == 1u64) == ((y >> 54u64) & 1u64 == 1u64)) && (((x >> 55u64) & 1u64 == 1u64) == ((y >> 55u64) & 1u64 == 1u64)) && (((x >> 56u64) & 1u64 == 1u64) == ((y >> 56u64) & 1u64 == 1u64)) && (((x >> 57u64) & 1u64 == 1u64) == ((y >> 57u64) & 1u64 == 1u64)) && (((x >> 58u64) & 1u64 == 1u64) == ((y >> 58u64) & 1u64 == 1u64)) && (((x >> 59u64) & 1u64 == 1u64) == ((y >> 59u64) & 1u64 == 1u64)) && (((x >> 60u64) & 1u64 == 1u64) == ((y >> 60u64) & 1u64 == 1u64)) && (((x >> 61u64) & 1u64 == 1u64) == ((y >> 61u64) & 1u64 == 1u64)) && (((x >> 62u64) & 1u64 == 1u64) == ((y >> 62u64) & 1u64 == 1u64)) && (((x >> 63u64) & 1u64 == 1u64) == ((y >> 63u64) & 1u64 == 1u64)) ==> x == y) by (bit_vector);
}

/// Bit `b` belongs to the element `i` of an array of fields `width` bits
/// wide, the first at `offset`, each `inc` bits after the one before.
pub open spec fn in_element(b: int, offset: int, width: int, inc: int, i: int) -> bool {
    offset + i * inc <= b < offset + i * inc + width
}

/// The bits of `x | y` are those of `x` and those of `y`; the bits of
/// `m << s` are those of `m`, `s` higher.
proof fn lemma_bits(x: u64, y: u64, m: u64, s: u64)
    requires
        s < 64,
    ensures
        forall|b: u64| b < 64 ==> (bit_set(x | y, b) <==> (bit_set(x, b) || bit_set(y, b))),
        forall|b: u64| b < 64 ==> (bit_set(m << s, b) <==> (s <= b && bit_set(m, (b - s) as u64))),
{
    let z = x | y;
    let t = m << s;
    assert(forall|b: u64| b < 64 ==> (((#[trigger] (z >> b)) & 1u64 == 1u64) <==> (((x >> b) & 1u64 == 1u64) || ((y
        >> b) & 1u64 == 1u64)))) by (bit_vector)
        requires
            z == x | y,
    ;
    assert(forall|b: u64|
        b < 64 ==> (((#[trigger] (t >> b)) & 1u64 == 1u64) <==> (s <= b && ((m >> ((b - s) as u64)) & 1u64
            == 1u64)))) by (bit_vector)
        requires
            s < 64,
            t == m << s,
    ;
}

/// The bits of `x | y` are those of `x` and those of `y`.
pub proof fn lemma_or_bits(x: u64, y: u64)
    ensures
        forall|b: u64| b < 64 ==> (bit_set(x | y, b) <==> (bit_set(x, b) || bit_set(y, b))),
{
    lemma_bits(x, y, 0, 0);
}

/// Bit `b` of a mask of `width` ones shifted by `offset` is set exactly
/// within the field.
proof fn lemma_mask_bits(offset: u64, width: u64, r: u64)
    requires
        1 <= width <= 64,
        offset < 64,
        r == (0xffff_ffff_ffff_ffffu64 >> ((64 - width) as u64)) << offset,
    ensures
        forall|b: u64| b < 64 ==> (bit_set(r, b) <==> (offset <= b && b < offset + width)),
{
    assert(forall|b: u64|
        b < 64 ==> (((#[trigger] (r >> b)) & 1u64 == 1u64) <==> (offset <= b && b < offset + width))) by (bit_vector)
        requires
            1 <= width <= 64,
            offset < 64,
            r == (0xffff_ffff_ffff_ffffu64 >> ((64 - width) as u64)) << offset,
    ;
}

/// Return the bit offsets of each field in an array
pub fn bit_offsets(info: &FieldInfo, dim: &DimElement) -> (r: Vec<u32>)
    requires
        dim.dim == 0 || info.bit_range.offset + (dim.dim - 1) * dim.dim_increment <= u32::MAX,
    ensures
        r@ == Seq::new(dim.dim as nat, |i: int| (info.bit_range.offset + i * dim.dim_increment) as u32),
{
    let mut out: Vec<u32> = Vec::new();
    let mut i: u32 = 0;
    while i < dim.dim
        invariant
            i <= dim.dim,
            dim.dim == 0 || info.bit_range.offset + (dim.dim - 1) * dim.dim_increment <= u32::MAX,
            out@ =~= Seq::new(i as nat, |k: int| (info.bit_range.offset + k * dim.dim_increment) as u32),
        decreases dim.dim - i,
    {
        assert(i * dim.dim_increment <= (dim.dim - 1) * dim.dim_increment) by (nonlinear_arith)
            requires
                i <= dim.dim - 1,
        ;
        out.push(info.bit_offset() + i * dim.dim_increment);
        i += 1;
    }
    out
}

/// Extract `FieldInfo` items from array: element `i` is named and described
/// after index `i` and placed at bit offset `i`; everything else is copied.
pub fn expand(info: &FieldInfo, dim: &DimElement) -> (r: Vec<FieldInfo>)
    requires
        indexes_cover(dim@),
        dim.dim == 0 || info.bit_range.offset + (dim.dim - 1) * dim.dim_increment <= u32::MAX,
    ensures
        r@.len() == dim.dim,
        forall|i: int|
            0 <= i < dim.dim ==> (#[trigger] r@[i])@ == (FieldInfoModel {
                name: expand_name(info.name@, indexes_spec(dim@)[i]),
                description: match info.description {
                    Some(d) => Some(expand_name(d@, indexes_spec(dim@)[i])),
                    None => None,
                },
                bit_range: BitRange::offset_width_spec(
                    (info.bit_range.offset + i * dim.dim_increment) as u32,
                    info.bit_range.width,
                ),
                ..info@
            }),
{
    let ns = names(info.name.as_str(), dim);
    let ds = descriptions(
        match &info.description {
            Some(d) => Some(d.as_str()),
            None => None,
        },
        dim,
    );
    let offs = bit_offsets(info, dim);
    let mut out: Vec<FieldInfo> = Vec::new();
    let mut i: usize = 0;
    assert(strings_view(ns@).len() == ns@.len());
    while i < ns.len()
        invariant
            i <= ns@.len(),
            ns@.len() == dim.dim,
            ds@.len() == dim.dim,
            offs@.len() == dim.dim,
            strings_view(ns@) == Seq::new(
                dim.dim as nat,
                |k: int| expand_name(info.name@, indexes_spec(dim@)[k]),
            ),
            forall|k: int|
                0 <= k < dim.dim ==> match info.description {
                    Some(d) => (#[trigger] ds@[k]) matches Some(s) && s@ == expand_name(
                        d@,
                        indexes_spec(dim@)[k],
                    ),
                    None => ds@[k] is None,
                },
            offs@ == Seq::new(
                dim.dim as nat,
                |k: int| (info.bit_range.offset + k * dim.dim_increment) as u32,
            ),
            out@.len() == i,
            forall|k: int|
                0 <= k < i ==> (#[trigger] out@[k])@ == (FieldInfoModel {
                    name: expand_name(info.name@, indexes_spec(dim@)[k]),
                    description: match info.description {
                        Some(d) => Some(expand_name(d@, indexes_spec(dim@)[k])),
                        None => None,
                    },
                    bit_range: BitRange::offset_width_spec(
                        (info.bit_range.offset + k * dim.dim_increment) as u32,
                        info.bit_range.width,
                    ),
                    ..info@
                }),
        decreases ns@.len() - i,
    {
        let mut f = info.clone();
        f.name = ns[i].clone();
        f.description = clone_opt(&ds[i]);
        f.bit_range = BitRange::from_offset_width(offs[i], info.bit_width());
        assert(strings_view(ns@)[i as int] == ns@[i as int]@);
        out.push(f);
        i += 1;
    }
    out
}

impl FieldInfo {
    /// Make a builder for [`FieldInfo`]
    pub fn builder() -> (r: FieldInfoBuilder)
        ensures
            r == FieldInfoBuilder::empty(),
    {
        FieldInfoBuilder::default()
    }

    /// Construct single [`Field`]
    pub fn single(self) -> (r: Field)
        ensures
            r == Field::Single(self),
    {
        Field::Single(self)
    }

    /// Construct [`Field`] array
    pub fn array(self, dim: DimElement) -> (r: Field)
        ensures
            r == Field::Array(self, dim),
    {
        Field::Array(self, dim)
    }

    /// Construct single [`Field`] or array
    pub fn maybe_array(self, dim: Option<DimElement>) -> (r: Field)
        ensures
            r == (match dim {
                Some(d) => Field::Array(self, d),
                None => Field::Single(self),
            }),
    {
        match dim {
            Some(d) => self.array(d),
            None => self.single(),
        }
    }

    /// Modify an existing [`FieldInfo`] based on a [builder](FieldInfoBuilder).
    pub fn modify_from(&mut self, builder: FieldInfoBuilder, lvl: ValidateLevel) -> (r: Result<(), SvdError>)
        ensures
            final(self)@ == old(self)@.modified(builder),
            final(self)@.validate_spec(lvl, r),
    {
        let ghost b = builder;
        if let Some(name) = builder.name {
            self.name = name;
        }
        if builder.description.is_some() {
            self.description = empty_to_none(builder.description);
        }
        if let Some(bit_range) = builder.bit_range {
            self.bit_range = bit_range;
        }
        if let Some(offset) = builder.bit_offset {
            self.bit_range.offset = offset;
        }
        if let Some(width) = builder.bit_width {
            self.bit_range.width = width;
        }
        if builder.access.is_some() {
            self.access = builder.access;
        }
        if builder.derived_from.is_some() {
            self.derived_from = builder.derived_from;
            self.modified_write_values = None;
            self.write_constraint = None;
            self.enumerated_values = Vec::new();
        } else {
            if builder.modified_write_values.is_some() {
                self.modified_write_values = builder.modified_write_values;
            }
            if builder.write_constraint.is_some() {
                self.write_constraint = builder.write_constraint;
            }
            if builder.read_action.is_some() {
                self.read_action = builder.read_action;
            }
            if let Some(enumerated_values) = builder.enumerated_values {
                self.enumerated_values = enumerated_values;
            }
        }
        assert(self@.enumerated_values =~= old(self)@.modified(b).enumerated_values);
        self.validate(lvl)
    }

    /// Validate the [`FieldInfo`].
    pub fn validate(&self, lvl: ValidateLevel) -> (r: Result<(), SvdError>)
        ensures
            self@.validate_spec(lvl, r),
    {
        if lvl.is_disabled() {
            return Ok(());
        }
        if lvl.is_strict() {
            match check_dimable_name(self.name.as_str(), "name") {
                Ok(()) => {},
                Err(e) => return Err(SvdError::Name(e)),
            }
            if let Some(name) = &self.derived_from {
                match check_derived_name(name.as_str(), "derivedFrom") {
                    Ok(()) => {},
                    Err(e) => return Err(SvdError::Name(e)),
                }
            }
        }
        let w = self.bit_range.width;
        if w == 0 {
            return Err(SvdError::BitRange(bitrange::Error::ZeroWidth));
        }
        let ghost evs = self@.enumerated_values;
        let ghost wr = width_range(w);
        if w < 64 {
            proof {
                vstd::bits::lemma_u64_pow2_no_overflow(w as nat);
                vstd::bits::lemma_u64_shl_is_mul(1u64, w as u64);
            }
            let hi: u64 = 1u64 << (w as u64);
            let mut i: usize = 0;
            while i < self.enumerated_values.len()
                invariant
                    i <= self.enumerated_values@.len(),
                    evs == self@.enumerated_values,
                    lvl != ValidateLevel::Disabled,
                    lvl == ValidateLevel::Strict ==> dimable_name(self@.name),
                    lvl == ValidateLevel::Strict && self@.derived_from is Some ==> derived_name(
                        self@.derived_from->0,
                    ),
                    w == self.bit_range.width,
                    0 < w < 64,
                    wr == width_range(w),
                    hi == wr.end,
                    wr.start == 0,
                    forall|j: int| 0 <= j < i ==> fits(evs[j], wr),
                decreases self.enumerated_values@.len() - i,
            {
                let res = self.enumerated_values[i].check_range(core::ops::Range { start: 0u64, end: hi });
                assert(evs[i as int] == self.enumerated_values@[i as int]@);
                match res {
                    Ok(()) => {},
                    Err(e) => {
                        assert(core::ops::Range { start: 0u64, end: hi } == wr);
                        assert(!fits(evs[i as int], wr));
                        assert(evs[i as int].check_range_spec(wr, Err(e)));
                        assert(wr == width_range(w));
                        assert(exists|k: int|
                            0 <= k < evs.len() && !fits(#[trigger] evs[k], width_range(w)) && (forall|j: int|
                                0 <= j < k ==> fits(evs[j], width_range(w))) && evs[k].check_range_spec(
                                width_range(w),
                                Err(e),
                            ));
                        return Err(e);
                    },
                }
                i += 1;
            }
        }
        if lvl.is_strict() {
            let n = self.enumerated_values.len();
            if n == 2 {
                let u0 = self.enumerated_values[0].usage();
                let u1 = self.enumerated_values[1].usage();
                let r0 = match u0 {
                    None => true,
                    Some(Usage::Read) => true,
                    _ => false,
                };
                let w0 = match u0 {
                    None => true,
                    Some(Usage::Write) => true,
                    _ => false,
                };
                let r1 = match u1 {
                    None => true,
                    Some(Usage::Read) => true,
                    _ => false,
                };
                let w1 = match u1 {
                    None => true,
                    Some(Usage::Write) => true,
                    _ => false,
                };
                assert(evs[0] == self.enumerated_values@[0]@);
                assert(evs[1] == self.enumerated_values@[1]@);
                if !((r0 && w1) || (r1 && w0)) {
                    return Err(SvdError::Field(Error::IncompatibleEnumeratedValues));
                }
            } else if n > 2 {
                return Err(SvdError::Field(Error::IncompatibleEnumeratedValues));
            }
        }
        if w < 64 {
            match self.write_constraint {
                Some(WriteConstraint::Range(constraint)) => {
                    proof {
                        vstd::bits::lemma_u64_pow2_no_overflow(w as nat);
                        vstd::bits::lemma_u64_shl_is_mul(1u64, w as u64);
                    }
                    let hi: u64 = 1u64 << (w as u64);
                    let res = constraint.check_range(core::ops::Range { start: 0u64, end: hi });
                    if res.is_err() {
                        return res;
                    }
                },
                _ => {},
            }
        }
        Ok(())
    }

    /// Validate the [`FieldInfo`] recursively
    pub fn validate_all(&self, lvl: ValidateLevel) -> (r: Result<(), SvdError>)
        ensures
            self@.validate_all_spec(lvl, r),
    {
        let ghost evs = self@.enumerated_values;
        let mut i: usize = 0;
        while i < self.enumerated_values.len()
            invariant
                i <= self.enumerated_values@.len(),
                evs == self@.enumerated_values,
                forall|j: int| 0 <= j < i ==> evs[j].validate_all_spec(lvl, Ok(())),
            decreases self.enumerated_values@.len() - i,
        {
            let res = self.enumerated_values[i].validate_all(lvl);
            assert(evs[i as int] == self.enumerated_values@[i as int]@);
            match res {
                Ok(()) => {},
                Err(e) => {
                    return Err(e);
                },
            }
            i += 1;
        }
        self.validate(lvl)
    }

    /// Get bit offset
    pub fn bit_offset(&self) -> (r: u32)
        ensures
            r == self.bit_range.offset,
    {
        self.bit_range.offset
    }

    /// Get bit width
    pub fn bit_width(&self) -> (r: u32)
        ensures
            r == self.bit_range.width,
    {
        self.bit_range.width
    }

    /// Get the position of the least significant bit
    pub fn lsb(&self) -> (r: u32)
        ensures
            r == self.bit_range.offset,
    {
        self.bit_range.lsb()
    }

    /// Get the position of the most significant bit
    pub fn msb(&self) -> (r: u32)
        requires
            self.bit_range.msb_ok(),
        ensures
            r == self.bit_range.msb_spec(),
    {
        self.bit_range.msb()
    }

    /// Get bits which is affected by field: all ones shifted right to the
    /// width, then left to the offset, so that bit `b` is set exactly when it
    /// lies within the field.
    pub fn bitmask(&self) -> (r: u64)
        requires
            1 <= self.bit_range.width <= 64,
            self.bit_range.offset < 64,
        ensures
            r == (u64::MAX >> (64 - self.bit_range.width) as u64) << self.bit_range.offset as u64,
            forall|b: u64|
                b < 64 ==> (bit_set(r, b) <==> (self.bit_range.offset <= b && b < self.bit_range.offset
                    + self.bit_range.width)),
    {
        let offset: u64 = self.bit_range.offset as u64;
        let width: u64 = self.bit_range.width as u64;
        let r = (u64::MAX >> (64 - width)) << offset;
        proof {
            lemma_mask_bits(offset, width, r);
        }
        r
    }

    /// Get enumeratedValues cluster by usage: with one or two enumerations,
    /// the first whose usage is `usage`.
    pub fn get_enumerated_values(&self, usage: Usage) -> (r: Option<&EnumeratedValues>)
        ensures
            match r {
                Some(e) => (self.enumerated_values@.len() == 1 || self.enumerated_values@.len() == 2)
                    && exists|i: int| self@.first_with_usage(usage, i) && *e == self.enumerated_values@[i],
                None => (self.enumerated_values@.len() == 1 || self.enumerated_values@.len() == 2) ==> forall|
                    i: int,
                | 0 <= i < self.enumerated_values@.len() ==> self@.enumerated_values[i].usage_spec() != Some(usage),
            },
    {
        let n = self.enumerated_values.len();
        if n != 1 && n != 2 {
            return None;
        }
        let mut i: usize = 0;
        while i < n
            invariant
                n == self.enumerated_values@.len(),
                n == 1 || n == 2,
                i <= n,
                forall|j: int| 0 <= j < i ==> self@.enumerated_values[j].usage_spec() != Some(usage),
            decreases n - i,
        {
            let u = self.enumerated_values[i].usage();
            assert(self@.enumerated_values[i as int] == self.enumerated_values@[i as int]@);
            let same = match u {
                Some(x) => x == usage,
                None => false,
            };
            if same {
                assert(self@.first_with_usage(usage, i as int));
                return Some(&self.enumerated_values[i]);
            }
            i += 1;
        }
        None
    }

    /// Get mutable enumeratedValues by usage: with one or two enumerations,
    /// the first whose usage is `usage`.
    pub fn get_mut_enumerated_values(&mut self, usage: Usage) -> (r: Option<&mut EnumeratedValues>)
        ensures
            match r {
                Some(e) => (old(self).enumerated_values@.len() == 1 || old(self).enumerated_values@.len() == 2)
                    && exists|i: int|
                    old(self)@.first_with_usage(usage, i) && *e == old(self).enumerated_values@[i]
                        && final(self).enumerated_values@ == old(self).enumerated_values@.update(i, *final(e))
                        && final(self)@ == (FieldInfoModel {
                        enumerated_values: final(self)@.enumerated_values,
                        ..old(self)@
                    }),
                None => final(self)@ == old(self)@ && ((old(self).enumerated_values@.len() == 1
                    || old(self).enumerated_values@.len() == 2) ==> forall|i: int|
                    0 <= i < old(self).enumerated_values@.len() ==> old(self)@.enumerated_values[i].usage_spec()
                        != Some(usage)),
            },
    {
        let n = self.enumerated_values.len();
        if n != 1 && n != 2 {
            return None;
        }
        let mut i: usize = 0;
        while i < n
            invariant
                *self == *old(self),
                n == self.enumerated_values@.len(),
                n == 1 || n == 2,
                i <= n,
                forall|j: int| 0 <= j < i ==> self@.enumerated_values[j].usage_spec() != Some(usage),
            decreases n - i,
        {
            let u = self.enumerated_values[i].usage();
            assert(self@.enumerated_values[i as int] == self.enumerated_values@[i as int]@);
            let same = match u {
                Some(x) => x == usage,
                None => false,
            };
            if same {
                assert(old(self)@.first_with_usage(usage, i as int));
                let r = &mut self.enumerated_values[i];
                assert(old(self).enumerated_values@[i as int] == *r);
                return Some(r);
            }
            i += 1;
        }
        None
    }
}

impl Field {
    /// Validate the [`Field`] recursively
    pub fn validate_all(&self, lvl: ValidateLevel) -> (r: Result<(), SvdError>)
        ensures
            self.info_spec()@.validate_all_spec(lvl, r),
    {
        if let Field::Array(_, dim) = self {
            match dim.validate(lvl) {
                Ok(()) => {},
                Err(e) => return Err(e),
            }
        }
        self.info().validate_all(lvl)
    }

    /// Get bits which is affected by field or field array: bit `b` is set
    /// exactly when it lies within one of the fields.
    pub fn bitmask(&self) -> (r: u64)
        requires
            1 <= self.info_spec().bit_range.width <= 64,
            self.info_spec().bit_range.offset < 64,
            self matches Field::Array(_, d) ==> d.dim == 0 || (d.dim - 1) * d.dim_increment < 64,
        ensures
            forall|b: u64|
                b < 64 ==> (bit_set(r, b) <==> match self {
                    Field::Single(f) => f.bit_range.offset <= b < f.bit_range.offset + f.bit_range.width,
                    Field::Array(f, d) => exists|i: int|
                        0 <= i < d.dim && #[trigger] in_element(
                            b as int,
                            f.bit_range.offset as int,
                            f.bit_range.width as int,
                            d.dim_increment as int,
                            i,
                        ),
                }),
    {
        match self {
            Field::Single(f) => f.bitmask(),
            Field::Array(f, d) => {
                let mask = f.bitmask();
                let ghost off = f.bit_range.offset as int;
                let ghost wid = f.bit_range.width as int;
                let ghost inc = d.dim_increment as int;
                let mut bits: u64 = 0;
                let mut i: u32 = 0;
                proof {
                    assert(forall|b: u64| b < 64 ==> ((#[trigger] (0u64 >> b)) & 1u64) != 1u64) by (bit_vector);
                }
                while i < d.dim
                    invariant
                        i <= d.dim,
                        d.dim == 0 || (d.dim - 1) * d.dim_increment < 64,
                        off == f.bit_range.offset,
                        wid == f.bit_range.width,
                        inc == d.dim_increment,
                        forall|b: u64|
                            b < 64 ==> (bit_set(mask, b) <==> (off <= b && b < off + wid)),
                        forall|b: u64|
                            b < 64 ==> (bit_set(bits, b) <==> exists|k: int|
                                0 <= k < i && #[trigger] in_element(b as int, off, wid, inc, k)),
                    decreases d.dim - i,
                {
                    assert(i * d.dim_increment <= (d.dim - 1) * d.dim_increment) by (nonlinear_arith)
                        requires
                            i <= d.dim - 1,
                    ;
                    let s: u32 = i * d.dim_increment;
                    let shifted = mask << (s as u64);
                    let next = bits | shifted;
                    proof {
                        lemma_bits(bits, shifted, mask, s as u64);
                        assert forall|b: u64| b < 64 implies (bit_set(next, b) <==> exists|k: int|
                            0 <= k < i + 1 && #[trigger] in_element(b as int, off, wid, inc, k)) by {
                            if bit_set(shifted, b) {
                                assert(in_element(b as int, off, wid, inc, i as int));
                            }
                            if exists|k: int| 0 <= k < i + 1 && #[trigger] in_element(b as int, off, wid, inc, k) {
                                let k = choose|k: int| 0 <= k < i + 1 && #[trigger] in_element(b as int, off, wid, inc, k);
                                if k == i {
                                    assert(bit_set(shifted, b));
                                } else {
                                    assert(bit_set(bits, b));
                                }
                            }
                        }
                    }
                    bits = next;
                    i += 1;
                }
                bits
            },
        }
    }
}

impl Name for FieldInfo {
    open spec fn name_spec(&self) -> Seq<char> {
        self.name@
    }

    fn name(&self) -> (r: &str) {
        self.name.as_str()
    }
}

impl Description for FieldInfo {
    open spec fn description_spec(&self) -> Option<Seq<char>> {
        opt_chars(self.description)
    }

    fn description(&self) -> (r: Option<&str>) {
        match &self.description {
            Some(d) => Some(d.as_str()),
            None => None,
        }
    }
}

} // verus!
