//! The peripherals that the entries of a patch file describe.
use vstd::prelude::*;

use crate::addressblock::AddressBlockUsage;
use crate::field::opt_chars;
use crate::patch::error::PatchError;
use crate::patch::make::{
    get_register_properties, key_number, key_text, make_address_block, make_interrupt, make_register,
    register_fields_ok, register_properties_of, owned_text, VAL_LVL,
};
use crate::patch::peripheral::{described_register, register_addable};
use crate::patch::yaml::{get_hash, get_i64, get_key_spec, get_str, get_vec, YamlValue};
use crate::text::owned;
use crate::{
    AddressBlock, Interrupt, PeripheralInfo, PeripheralInfoBuilder, Register, RegisterCluster, RegisterInfoBuilder,
    RegisterProperties,
};

verus! {

/// The entries of the mapping under `key`, none where there is no mapping.
pub open spec fn entries_under(h: Seq<(YamlValue, YamlValue)>, key: Seq<char>) -> Seq<(YamlValue, YamlValue)> {
    match get_key_spec(h, key) {
        Some(YamlValue::Hash(m)) => m@,
        _ => Seq::empty(),
    }
}

/// An entry that describes an interrupt: a name mapped to a mapping that
/// gives a value.
pub open spec fn interrupt_entry_ok(e: (YamlValue, YamlValue)) -> bool {
    &&& e.0 is String
    &&& e.1 matches YamlValue::Hash(m) && key_number(m@, "value"@) is Some
}

/// `x` is the interrupt that entry `e` describes.
pub open spec fn interrupt_entry_of(e: (YamlValue, YamlValue), x: Interrupt) -> bool {
    &&& e.0 matches YamlValue::String(n) && x.name@ == n@
    &&& e.1 matches YamlValue::Hash(m) && {
        &&& opt_chars(x.description) == key_text(m@, "description"@)
        &&& x.value == key_number(m@, "value"@)->0 as u32
    }
}

/// `v` holds the interrupts that the entries `h` describe, in order.
pub open spec fn interrupts_of(h: Seq<(YamlValue, YamlValue)>, v: Seq<Interrupt>) -> bool {
    &&& v.len() == h.len()
    &&& forall|i: int| 0 <= i < h.len() ==> interrupt_entry_of(h[i], #[trigger] v[i])
}

/// A mapping that describes an address block: it gives an offset, a size
/// and a known usage.
pub open spec fn block_ok(h: Seq<(YamlValue, YamlValue)>) -> bool {
    &&& key_number(h, "offset"@) is Some
    &&& key_number(h, "size"@) is Some
    &&& key_text(h, "usage"@) matches Some(u) && AddressBlockUsage::from_str_spec(u) is Some
}

/// `b` is the address block that the mapping `h` describes.
pub open spec fn block_of(h: Seq<(YamlValue, YamlValue)>, b: AddressBlock) -> bool {
    &&& b.offset == key_number(h, "offset"@)->0 as u32
    &&& b.size == key_number(h, "size"@)->0 as u32
    &&& b.usage == AddressBlockUsage::from_str_spec(key_text(h, "usage"@)->0)->0
    &&& b.protection is None
}

/// An item of a list of address blocks: a mapping that describes one.
pub open spec fn block_item_ok(y: YamlValue) -> bool {
    y matches YamlValue::Hash(m) && block_ok(m@)
}

/// `b` is the address block that the item `y` describes.
pub open spec fn block_item_of(y: YamlValue, b: AddressBlock) -> bool {
    y matches YamlValue::Hash(m) && block_of(m@, b)
}

/// The address blocks that a peripheral mapping asks can be made: one
/// under `addressBlock`, else a list under `addressBlocks`.
pub open spec fn blocks_ok(h: Seq<(YamlValue, YamlValue)>) -> bool {
    match get_key_spec(h, "addressBlock"@) {
        Some(YamlValue::Hash(m)) => block_ok(m@),
        _ => match get_key_spec(h, "addressBlocks"@) {
            Some(YamlValue::Array(a)) => forall|i: int| 0 <= i < a@.len() ==> block_item_ok(#[trigger] a@[i]),
            _ => true,
        },
    }
}

/// `o` holds the address blocks that a peripheral mapping asks.
pub open spec fn blocks_of(h: Seq<(YamlValue, YamlValue)>, o: Option<Vec<AddressBlock>>) -> bool {
    match get_key_spec(h, "addressBlock"@) {
        Some(YamlValue::Hash(m)) => o matches Some(v) && v@.len() == 1 && block_of(m@, v@[0]),
        _ => match get_key_spec(h, "addressBlocks"@) {
            Some(YamlValue::Array(a)) => o matches Some(v) && v@.len() == a@.len() && forall|i: int|
                0 <= i < a@.len() ==> block_item_of(a@[i], #[trigger] v@[i]),
            _ => o is None,
        },
    }
}

/// An entry that describes a register: a name mapped to a mapping whose
/// fields can be built.
pub open spec fn register_entry_ok(e: (YamlValue, YamlValue)) -> bool {
    &&& e.0 is String
    &&& e.1 matches YamlValue::Hash(m) && register_fields_ok(m@)
}

/// An entry that describes a register that can be built (see
/// [`register_addable`]).
pub open spec fn register_entry_builds(e: (YamlValue, YamlValue)) -> bool {
    &&& register_entry_ok(e)
    &&& e.1 matches YamlValue::Hash(m) && register_addable(m@)
}

/// `rc` is the single register that the entry `e` describes.
pub open spec fn register_entry_of(e: (YamlValue, YamlValue), rc: RegisterCluster) -> bool {
    &&& e.0 matches YamlValue::String(n) && e.1 matches YamlValue::Hash(m) && rc matches RegisterCluster::Register(x) && {
        &&& *x == Register::Single(x.info_spec())
        &&& described_register(m@, n@, x.info_spec())
    }
}

/// `o` holds the registers that a peripheral mapping describes under
/// `registers`.
pub open spec fn registers_of(h: Seq<(YamlValue, YamlValue)>, o: Option<Vec<RegisterCluster>>) -> bool {
    match get_key_spec(h, "registers"@) {
        Some(YamlValue::Hash(m)) => o matches Some(v) && v@.len() == m@.len() && forall|i: int|
            0 <= i < m@.len() ==> register_entry_of(m@[i], #[trigger] v@[i]),
        _ => o is None,
    }
}

/// The parts of a peripheral mapping that can fail to be read: its
/// interrupts and, unless it derives, its address blocks and registers.
pub open spec fn peripheral_ok(h: Seq<(YamlValue, YamlValue)>) -> bool {
    &&& forall|i: int|
        0 <= i < entries_under(h, "interrupts"@).len() ==> interrupt_entry_ok(
            #[trigger] entries_under(h, "interrupts"@)[i],
        )
    &&& key_text(h, "derivedFrom"@) is None ==> {
        &&& blocks_ok(h)
        &&& forall|i: int|
            0 <= i < entries_under(h, "registers"@).len() ==> register_entry_builds(
                #[trigger] entries_under(h, "registers"@)[i],
            )
    }
}

/// `b` is the peripheral builder that the mapping `h` describes: its texts,
/// interrupts, name and base address; then either the peripheral it
/// derives from, or its default properties, address blocks and registers.
pub open spec fn peripheral_builder_of(h: Seq<(YamlValue, YamlValue)>, b: PeripheralInfoBuilder) -> bool {
    &&& opt_chars(b.display_name) == key_text(h, "displayName"@)
    &&& opt_chars(b.version) == key_text(h, "version"@)
    &&& opt_chars(b.description) == key_text(h, "description"@)
    &&& opt_chars(b.group_name) == key_text(h, "groupName"@)
    &&& b.alternate_peripheral is None
    &&& b.prepend_to_name is None
    &&& b.append_to_name is None
    &&& b.header_struct_name is None
    &&& b.interrupt matches Some(v) && interrupts_of(entries_under(h, "interrupts"@), v@)
    &&& opt_chars(b.name) == key_text(h, "name"@)
    &&& b.base_address == match key_number(h, "baseAddress"@) {
        Some(a) => Some(a as u64),
        None => None,
    }
    &&& match key_text(h, "derivedFrom"@) {
        Some(d) => {
            &&& opt_chars(b.derived_from) == Some(d)
            &&& b.default_register_properties == RegisterProperties::empty()
            &&& b.address_block is None
            &&& b.registers is None
        },
        None => {
            &&& b.derived_from is None
            &&& b.default_register_properties == register_properties_of(h)
            &&& blocks_of(h, b.address_block)
            &&& registers_of(h, b.registers)
        },
    }
}

/// The interrupts that the entries `h` describe; `None` where one does not.
fn make_interrupts(h: &Vec<(YamlValue, YamlValue)>) -> (r: Option<Vec<Interrupt>>)
    ensures
        r is Some <==> forall|i: int| 0 <= i < h@.len() ==> interrupt_entry_ok(#[trigger] h@[i]),
        r matches Some(v) ==> interrupts_of(h@, v@),
{
    let mut out: Vec<Interrupt> = Vec::new();
    let mut i: usize = 0;
    while i < h.len()
        invariant
            i <= h@.len(),
            out@.len() == i,
            forall|j: int| 0 <= j < i ==> interrupt_entry_ok(#[trigger] h@[j]),
            forall|j: int| 0 <= j < i ==> interrupt_entry_of(h@[j], #[trigger] out@[j]),
        decreases h@.len() - i,
    {
        let x = match (&h[i].0, &h[i].1) {
            (YamlValue::String(n), YamlValue::Hash(m)) => {
                proof {
                    reveal_strlit("value");
                }
                if get_i64(m, "value").is_none() {
                    return None;
                }
                make_interrupt(n.as_str(), m)
            },
            _ => return None,
        };
        out.push(x);
        i += 1;
    }
    Some(out)
}

/// The address blocks that the items `a` describe; `None` where one does
/// not.
fn make_address_blocks(a: &Vec<YamlValue>) -> (r: Option<Vec<AddressBlock>>)
    ensures
        r is Some <==> forall|i: int| 0 <= i < a@.len() ==> block_item_ok(#[trigger] a@[i]),
        r matches Some(v) ==> v@.len() == a@.len() && forall|i: int|
            0 <= i < a@.len() ==> block_item_of(a@[i], #[trigger] v@[i]),
{
    let mut out: Vec<AddressBlock> = Vec::new();
    let mut i: usize = 0;
    while i < a.len()
        invariant
            i <= a@.len(),
            out@.len() == i,
            forall|j: int| 0 <= j < i ==> block_item_ok(#[trigger] a@[j]),
            forall|j: int| 0 <= j < i ==> block_item_of(a@[j], #[trigger] out@[j]),
        decreases a@.len() - i,
    {
        let b = match &a[i] {
            YamlValue::Hash(m) => match check_block(m) {
                true => make_address_block(m),
                false => return None,
            },
            _ => return None,
        };
        out.push(b);
        i += 1;
    }
    Some(out)
}

/// Whether the mapping describes an address block (see [`block_ok`]).
fn check_block(h: &Vec<(YamlValue, YamlValue)>) -> (r: bool)
    ensures
        r == block_ok(h@),
{
    proof {
        reveal_strlit("offset");
        reveal_strlit("size");
        reveal_strlit("usage");
    }
    if get_i64(h, "offset").is_none() || get_i64(h, "size").is_none() {
        return false;
    }
    match get_str(h, "usage") {
        Some(u) => AddressBlockUsage::parse_str(u).is_some(),
        None => false,
    }
}

/// The single registers that the entries `h` describe; fails where one
/// cannot be built (see [`register_entry_builds`]).
fn make_registers(h: &Vec<(YamlValue, YamlValue)>) -> (r: Result<Vec<RegisterCluster>, PatchError>)
    ensures
        r is Ok <==> forall|i: int| 0 <= i < h@.len() ==> register_entry_builds(#[trigger] h@[i]),
        r matches Ok(v) ==> v@.len() == h@.len() && forall|i: int|
            0 <= i < h@.len() ==> register_entry_of(h@[i], #[trigger] v@[i]),
{
    let mut out: Vec<RegisterCluster> = Vec::new();
    let mut i: usize = 0;
    while i < h.len()
        invariant
            i <= h@.len(),
            out@.len() == i,
            forall|j: int| 0 <= j < i ==> register_entry_builds(#[trigger] h@[j]),
            forall|j: int| 0 <= j < i ==> register_entry_of(h@[j], #[trigger] out@[j]),
        decreases h@.len() - i,
    {
        let rc = match (&h[i].0, &h[i].1) {
            (YamlValue::String(n), YamlValue::Hash(m)) => {
                proof {
                    reveal_strlit("addressOffset");
                }
                let b = match make_register(m) {
                    Ok(b) => b,
                    Err(e) => {
                        assert(!register_entry_builds(h@[i as int]));
                        return Err(e);
                    },
                };
                let ghost b0 = b;
                let x = match b.name(owned(n.as_str())).build(VAL_LVL) {
                    Ok(x) => x,
                    Err(e) => {
                        assert(!register_entry_builds(h@[i as int]));
                        return Err(PatchError::Invalid(e));
                    },
                };
                assert(x == (RegisterInfoBuilder { name: Some(x.name), ..b0 }).built());
                RegisterCluster::Register(Box::new(Register::Single(x)))
            },
            _ => {
                assert(!register_entry_builds(h@[i as int]));
                return Err(PatchError::Value(owned("registers")));
            },
        };
        out.push(rc);
        i += 1;
    }
    Ok(out)
}

/// The peripheral builder that a mapping describes (see
/// [`peripheral_builder_of`]); fails exactly where an interrupt, an address
/// block or a register cannot be read or built (see [`peripheral_ok`]).
pub fn make_peripheral(padd: &Vec<(YamlValue, YamlValue)>) -> (r: Result<PeripheralInfoBuilder, PatchError>)
    ensures
        r is Ok <==> peripheral_ok(padd@),
        r matches Ok(b) ==> peripheral_builder_of(padd@, b),
{
    proof {
        reveal_strlit("displayName");
        reveal_strlit("version");
        reveal_strlit("description");
        reveal_strlit("groupName");
        reveal_strlit("interrupts");
        reveal_strlit("name");
        reveal_strlit("baseAddress");
        reveal_strlit("derivedFrom");
        reveal_strlit("addressBlock");
        reveal_strlit("addressBlocks");
        reveal_strlit("registers");
    }
    let ints = match get_hash(padd, "interrupts") {
        Some(m) => match make_interrupts(m) {
            Some(v) => v,
            None => {
                proof {
                    let i = choose|i: int| 0 <= i < m@.len() && !interrupt_entry_ok(#[trigger] m@[i]);
                    assert(entries_under(padd@, "interrupts"@)[i] == m@[i]);
                }
                return Err(PatchError::Value(owned("interrupts")));
            },
        },
        None => Vec::new(),
    };
    let mut pnew = PeripheralInfo::builder().display_name(owned_text(get_str(padd, "displayName"))).version(
        owned_text(get_str(padd, "version")),
    ).description(owned_text(get_str(padd, "description"))).group_name(owned_text(get_str(padd, "groupName"))).interrupt(
        Some(ints),
    );
    if let Some(name) = get_str(padd, "name") {
        pnew = pnew.name(owned(name));
    }
    if let Some(base_address) = get_i64(padd, "baseAddress") {
        pnew = pnew.base_address(base_address as u64);
    }
    if let Some(derived) = get_str(padd, "derivedFrom") {
        return Ok(pnew.derived_from(Some(owned(derived))));
    }
    let blocks = match get_hash(padd, "addressBlock") {
        Some(m) => {
            if !check_block(m) {
                return Err(PatchError::Value(owned("addressBlock")));
            }
            let mut v: Vec<AddressBlock> = Vec::new();
            v.push(make_address_block(m));
            Some(v)
        },
        None => match get_vec(padd, "addressBlocks") {
            Some(a) => match make_address_blocks(a) {
                Some(v) => Some(v),
                None => return Err(PatchError::Value(owned("addressBlocks"))),
            },
            None => None,
        },
    };
    let registers = match get_hash(padd, "registers") {
        Some(m) => match make_registers(m) {
            Ok(v) => Some(v),
            Err(e) => {
                proof {
                    let i = choose|i: int| 0 <= i < m@.len() && !register_entry_builds(#[trigger] m@[i]);
                    assert(entries_under(padd@, "registers"@)[i] == m@[i]);
                }
                return Err(e);
            },
        },
        None => None,
    };
    Ok(pnew.default_register_properties(get_register_properties(padd)).address_block(blocks).registers(registers))
}

} // verus!
