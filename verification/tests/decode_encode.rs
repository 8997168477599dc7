use svd_rs::registerproperties::check_reset_value;
use svd_rs::riscv::{Hart, Priority, Riscv};
use svd_rs::{
    Access, BitRange, BitRangeType, Cpu, DimElement, Endian, EnumeratedValue, EnumeratedValues,
    Field, FieldInfo, Interrupt, ModifiedWriteValues, Register, RegisterInfo, Usage,
    ValidateLevel, WriteConstraint, WriteConstraintRange,
};

/// The texts of every `<tag>...</tag>` element of `xml`, in order.
fn texts(xml: &str, tag: &str) -> Vec<String> {
    let open = format!("<{}>", tag);
    let close = format!("</{}>", tag);
    let mut out = Vec::new();
    let mut rest = xml;
    while let Some(start) = rest.find(&open) {
        let after = &rest[start + open.len()..];
        let end = after.find(&close).expect("unclosed element");
        out.push(after[..end].to_string());
        rest = &after[end + close.len()..];
    }
    out
}

/// The text of the first `<tag>` element of `xml`.
fn text(xml: &str, tag: &str) -> String {
    texts(xml, tag).into_iter().next().expect("missing element")
}

/// A number written in decimal or in hexadecimal with `0x`.
fn number(t: &str) -> u64 {
    match t.strip_prefix("0x") {
        Some(h) => u64::from_str_radix(h, 16).unwrap(),
        None => t.parse().unwrap(),
    }
}

#[test]
fn test_check_reset_value() {
    let lvl = ValidateLevel::Strict;
    check_reset_value(None, None, None, lvl).unwrap();
    check_reset_value(Some(8), None, None, lvl).unwrap();
    check_reset_value(Some(8), None, Some(0xff), lvl).unwrap();
    check_reset_value(Some(32), Some(0xfaceface), None, lvl).unwrap();
    check_reset_value(Some(32), Some(0xfaceface), Some(0xffffffff), lvl).unwrap();

    assert!(
        check_reset_value(Some(8), None, Some(0x100), lvl).is_err(),
        "mask shouldn't fit in size"
    );
    assert!(
        check_reset_value(Some(1), Some(0x02), None, lvl).is_err(),
        "reset value shouldn't fit in field"
    );
    assert!(
        check_reset_value(Some(8), Some(0x80), Some(0x01), lvl).is_err(),
        "value should conflict with mask"
    );
}

#[test]
fn access_decode_encode() {
    let tests = vec![
        (Access::ReadOnly, "<access>read-only</access>"),
        (Access::ReadWrite, "<access>read-write</access>"),
        (Access::ReadWriteOnce, "<access>read-writeOnce</access>"),
        (Access::WriteOnly, "<access>write-only</access>"),
        (Access::WriteOnce, "<access>writeOnce</access>"),
    ];
    for (value, xml) in tests {
        let t = text(xml, "access");
        assert_eq!(Access::parse_str(&t), Some(value));
        assert_eq!(value.as_str(), t);
    }
}

#[test]
fn endian_decode_encode() {
    let tests = [
        (Endian::Little, "<endian>little</endian>", "<endian>little</endian>"),
        (Endian::Big, "<endian>big</endian>", "<endian>big</endian>"),
        (
            Endian::Selectable,
            "<endian>selectable</endian>",
            "<endian>selectable</endian>",
        ),
        (Endian::Other, "<endian>other</endian>", "<endian>other</endian>"),
    ];
    for (value, input, output) in tests {
        assert_eq!(Endian::parse_str(&text(input, "endian")), Some(value));
        assert_eq!(value.as_str(), text(output, "endian"));
    }
}

#[test]
fn usage_decode_encode() {
    let tests = vec![
        (Usage::Read, "<usage>read</usage>", "<usage>read</usage>"),
        (Usage::Write, "<usage>write</usage>", "<usage>write</usage>"),
        (
            Usage::ReadWrite,
            "<usage>read-write</usage>",
            "<usage>read-write</usage>",
        ),
    ];
    for (value, input, output) in tests {
        assert_eq!(Usage::parse_str(&text(input, "usage")), Some(value));
        assert_eq!(value.as_str(), text(output, "usage"));
    }
}

#[test]
fn modifiedwritevalues_decode_encode() {
    let tests = [(
        ModifiedWriteValues::OneToToggle,
        "<modifiedWriteValues>oneToToggle</modifiedWriteValues>",
        "<modifiedWriteValues>oneToToggle</modifiedWriteValues>",
    )];
    for (value, input, output) in tests {
        assert_eq!(
            ModifiedWriteValues::parse_str(&text(input, "modifiedWriteValues")),
            Some(value)
        );
        assert_eq!(value.as_str(), text(output, "modifiedWriteValues"));
    }
}

#[test]
fn writeconstraint_decode_encode() {
    let tests = [
        (
            WriteConstraint::WriteAsRead(true),
            "<writeConstraint><writeAsRead>true</writeAsRead></writeConstraint>",
            "<writeConstraint><writeAsRead>true</writeAsRead></writeConstraint>",
        ),
        (
            WriteConstraint::UseEnumeratedValues(true),
            "<writeConstraint><useEnumeratedValues>true</useEnumeratedValues></writeConstraint>",
            "<writeConstraint><useEnumeratedValues>true</useEnumeratedValues></writeConstraint>",
        ),
        (
            WriteConstraint::Range(WriteConstraintRange { min: 1, max: 10 }),
            "<writeConstraint><range><minimum>1</minimum><maximum>10</maximum></range></writeConstraint>",
            "<writeConstraint><range><minimum>1</minimum><maximum>10</maximum></range></writeConstraint>",
        ),
    ];
    for (value, input, output) in tests {
        assert_eq!(input, output);
        match value {
            WriteConstraint::WriteAsRead(b) => assert_eq!(text(input, "writeAsRead"), b.to_string()),
            WriteConstraint::UseEnumeratedValues(b) => {
                assert_eq!(text(input, "useEnumeratedValues"), b.to_string())
            }
            WriteConstraint::Range(r) => {
                assert_eq!(number(&text(input, "minimum")), r.min);
                assert_eq!(number(&text(input, "maximum")), r.max);
            }
        }
    }
}

#[test]
fn cpu_decode_encode() {
    let cpu = Cpu::builder()
        .name("EFM32JG12B500F512GM48".to_string())
        .revision("5.1.1".to_string())
        .endian(Endian::Little)
        .mpu_present(true)
        .fpu_present(true)
        .nvic_priority_bits(8)
        .has_vendor_systick(false)
        .build(ValidateLevel::Strict)
        .unwrap();
    let xml = "
                <cpu>
                    <name>EFM32JG12B500F512GM48</name>  
                    <revision>5.1.1</revision>
                    <endian>little</endian>
                    <mpuPresent>true</mpuPresent>
                    <fpuPresent>true</fpuPresent>
                    <nvicPrioBits>8</nvicPrioBits>
                    <vendorSystickConfig>false</vendorSystickConfig>
                </cpu>
            ";
    assert_eq!(cpu.name, text(xml, "name"));
    assert_eq!(cpu.revision, text(xml, "revision"));
    assert_eq!(cpu.endian.as_str(), text(xml, "endian"));
    assert_eq!(cpu.mpu_present.to_string(), text(xml, "mpuPresent"));
    assert_eq!(cpu.fpu_present.to_string(), text(xml, "fpuPresent"));
    assert_eq!(cpu.nvic_priority_bits as u64, number(&text(xml, "nvicPrioBits")));
    assert_eq!(cpu.has_vendor_systick.to_string(), text(xml, "vendorSystickConfig"));
    assert_eq!(cpu.fpu_double_precision, None);
    assert!(!cpu.is_cortex_m());
}

#[test]
fn dimelement_decode_encode() {
    let cases = [
        (vec!["10", "20"], 2, 4, "<dimElement><dim>2</dim><dimIncrement>0x4</dimIncrement><dimIndex>10,20</dimIndex></dimElement>"),
        (vec!["3", "4", "5"], 3, 4, "<dimElement><dim>3</dim><dimIncrement>0x4</dimIncrement><dimIndex>3-5</dimIndex></dimElement>"),
        (vec!["3", "5", "4"], 3, 4, "<dimElement><dim>3</dim><dimIncrement>0x4</dimIncrement><dimIndex>3,5,4</dimIndex></dimElement>"),
        (vec!["3"], 1, 0, "<dimElement><dim>1</dim><dimIncrement>0x0</dimIncrement><dimIndex>3-3</dimIndex></dimElement>"),
    ];
    for (index, dim, inc, xml) in cases {
        let d = DimElement::builder()
            .dim(dim)
            .dim_increment(inc)
            .dim_index(Some(index.iter().map(|s| s.to_string()).collect()))
            .build(ValidateLevel::Strict)
            .unwrap();
        assert_eq!(d.dim as u64, number(&text(xml, "dim")));
        assert_eq!(d.dim_increment as u64, number(&text(xml, "dimIncrement")));
        assert_eq!(
            DimElement::parse_indexes(&text(xml, "dimIndex")),
            d.dim_index.clone()
        );
    }
    let d = DimElement::builder()
        .dim(14)
        .dim_increment(15)
        .build(ValidateLevel::Strict)
        .unwrap();
    let input = "<dimElement><dim>14</dim><dimIncrement>0xF</dimIncrement></dimElement>";
    let output = "<dimElement><dim>0xE</dim><dimIncrement>0xf</dimIncrement></dimElement>";
    assert_eq!(d.dim as u64, number(&text(input, "dim")));
    assert_eq!(d.dim_increment as u64, number(&text(input, "dimIncrement")));
    assert_eq!(format!("0x{:X}", d.dim), text(output, "dim"));
    assert_eq!(format!("0x{:x}", d.dim_increment), text(output, "dimIncrement"));
    assert_eq!(d.dim_index, None);
}

#[test]
fn decode_encode_one_element() {}

#[test]
fn interrupt_decode_encode() {
    let i = Interrupt::builder()
        .name("test".to_string())
        .description(Some("description".to_string()))
        .value(14)
        .build(ValidateLevel::Strict)
        .unwrap();
    let xml = "
            <interrupt>
                <name>test</name>
                <description>description</description>
                <value>14</value>
            </interrupt>";
    assert_eq!(i.name, text(xml, "name"));
    assert_eq!(i.description.as_deref(), Some(text(xml, "description").as_str()));
    assert_eq!(i.value as u64, number(&text(xml, "value")));
}

fn field_info_mode() -> FieldInfo {
    FieldInfo::builder()
        .name("MODE".to_string())
        .description(Some("Read Mode".to_string()))
        .bit_range(BitRange {
            offset: 24,
            width: 2,
            range_type: BitRangeType::OffsetWidth,
        })
        .access(Some(Access::ReadWrite))
        .enumerated_values(vec![EnumeratedValues::builder()
            .values(vec![EnumeratedValue::builder()
                .name("WS0".to_string())
                .description(Some(
                    "Zero wait-states inserted in fetch or read transfers".to_string(),
                ))
                .value(Some(0))
                .is_default(None)
                .build(ValidateLevel::Strict)
                .unwrap()])
            .build(ValidateLevel::Strict)
            .unwrap()])
        .build(ValidateLevel::Strict)
        .unwrap()
}

#[test]
fn field_decode_encode_info() {
    let f = field_info_mode();
    let xml = "
        <field>
          <name>MODE</name>
          <description>Read Mode</description>
          <bitOffset>24</bitOffset>
          <bitWidth>2</bitWidth>
          <access>read-write</access>
          <enumeratedValues>
            <enumeratedValue>
              <name>WS0</name>
              <description>Zero wait-states inserted in fetch or read transfers</description>
              <value>0</value>
            </enumeratedValue>
          </enumeratedValues>
        </field>
        ";
    let names = texts(xml, "name");
    let descriptions = texts(xml, "description");
    assert_eq!(f.name, names[0]);
    assert_eq!(f.description.as_deref(), Some(descriptions[0].as_str()));
    assert_eq!(f.bit_offset() as u64, number(&text(xml, "bitOffset")));
    assert_eq!(f.bit_width() as u64, number(&text(xml, "bitWidth")));
    assert_eq!(Access::parse_str(&text(xml, "access")), f.access);
    assert_eq!(f.enumerated_values.len(), 1);
    let ev = &f.enumerated_values[0].values[0];
    assert_eq!(ev.name, names[1]);
    assert_eq!(ev.description.as_deref(), Some(descriptions[1].as_str()));
    assert_eq!(ev.value, Some(number(&text(xml, "value"))));

    let f = FieldInfo::builder()
        .name("MODE".to_string())
        .derived_from(Some("other_field".to_string()))
        .bit_range(BitRange {
            offset: 24,
            width: 2,
            range_type: BitRangeType::OffsetWidth,
        })
        .build(ValidateLevel::Strict)
        .unwrap();
    let xml = "
        <field derivedFrom=\"other_field\">
          <name>MODE</name>
          <bitOffset>24</bitOffset>
          <bitWidth>2</bitWidth>
        </field>
        ";
    assert!(xml.contains(&format!("derivedFrom=\"{}\"", f.derived_from.as_deref().unwrap())));
    assert_eq!(f.name, text(xml, "name"));
    assert_eq!(f.bit_range.offset as u64, number(&text(xml, "bitOffset")));
    assert_eq!(f.bit_range.width as u64, number(&text(xml, "bitWidth")));
    assert!(f.enumerated_values.is_empty());
}

#[test]
fn field_decode_encode() {
    let field = Field::Array(
        FieldInfo::builder()
            .name("MODE%s".to_string())
            .derived_from(Some("other_field".to_string()))
            .bit_range(BitRange::from_offset_width(24, 2))
            .build(ValidateLevel::Strict)
            .unwrap(),
        DimElement::builder()
            .dim(2)
            .dim_increment(4)
            .dim_index(Some(vec!["10".to_string(), "20".to_string()]))
            .build(ValidateLevel::Strict)
            .unwrap(),
    );
    let xml = "
        <field derivedFrom=\"other_field\">
          <dim>2</dim>
          <dimIncrement>0x4</dimIncrement>
          <dimIndex>10,20</dimIndex>
          <name>MODE%s</name>
          <bitOffset>24</bitOffset>
          <bitWidth>2</bitWidth>
        </field>
        ";
    match &field {
        Field::Array(info, dim) => {
            assert_eq!(info.name, text(xml, "name"));
            assert_eq!(dim.dim as u64, number(&text(xml, "dim")));
            assert_eq!(dim.dim_increment as u64, number(&text(xml, "dimIncrement")));
            assert_eq!(DimElement::parse_indexes(&text(xml, "dimIndex")), dim.dim_index.clone());
            assert_eq!(info.bit_offset() as u64, number(&text(xml, "bitOffset")));
            assert_eq!(info.bit_width() as u64, number(&text(xml, "bitWidth")));
        }
        Field::Single(_) => panic!("expected an array"),
    }

    let f = FieldInfo::builder()
        .name("MODE".to_string())
        .derived_from(Some("other_field".to_string()))
        .bit_range(BitRange {
            offset: 24,
            width: 2,
            range_type: BitRangeType::OffsetWidth,
        })
        .build(ValidateLevel::Strict)
        .unwrap();
    let output = "
        <field derivedFrom=\"other_field\">
          <name>mode</name>
          <lsb>24</lsb>
          <msb>25</msb>
        </field>
        ";
    assert_eq!(f.name.to_lowercase(), text(output, "name"));
    assert_eq!(f.lsb() as u64, number(&text(output, "lsb")));
    assert_eq!(f.msb() as u64, number(&text(output, "msb")));
}

#[test]
fn register_decode_encode() {
    let reg = Register::Array(
        RegisterInfo::builder()
            .name("MODE%s".to_string())
            .address_offset(8)
            .build(ValidateLevel::Strict)
            .unwrap(),
        DimElement::builder()
            .dim(2)
            .dim_increment(4)
            .dim_index(Some(vec!["10".to_string(), "20".to_string()]))
            .build(ValidateLevel::Strict)
            .unwrap(),
    );
    let xml = "
        <register>
          <dim>2</dim>
          <dimIncrement>0x4</dimIncrement>
          <dimIndex>10,20</dimIndex>
          <name>MODE%s</name>
          <addressOffset>0x8</addressOffset>
        </register>
        ";
    match &reg {
        Register::Array(info, dim) => {
            assert_eq!(info.name, text(xml, "name"));
            assert_eq!(info.address_offset as u64, number(&text(xml, "addressOffset")));
            assert_eq!(dim.dim as u64, number(&text(xml, "dim")));
            assert_eq!(dim.dim_increment as u64, number(&text(xml, "dimIncrement")));
            assert_eq!(DimElement::parse_indexes(&text(xml, "dimIndex")), dim.dim_index.clone());
            let regs = svd_rs::register::expand(info, dim);
            assert_eq!(regs.len(), 2);
            assert_eq!(regs[0].name, "MODE10");
            assert_eq!(regs[1].name, "MODE20");
            assert_eq!(regs[1].address_offset, 12);
        }
        Register::Single(_) => panic!("expected an array"),
    }
}

#[test]
fn riscv_decode_encode() {
    let interrupt = |name: &str, description: &str, value: u32| {
        Interrupt::builder()
            .name(name.to_string())
            .description(Some(description.to_string()))
            .value(value)
            .build(ValidateLevel::Strict)
            .unwrap()
    };
    let interrupts = vec![
        interrupt("MachineSoft", "Machine Software Interrupt", 3),
        interrupt("MachineTimer", "Machine Timer Interrupt", 7),
        interrupt("MachineExternal", "Machine External Interrupt", 11),
    ];
    let priorities: Vec<Priority> = (0..8)
        .map(|i| {
            Priority::builder()
                .name(format!("P{}", i))
                .description(Some(format!("Priority level {}", i)))
                .value(i)
                .build(ValidateLevel::Strict)
                .unwrap()
        })
        .collect();
    let harts = vec![Hart::builder()
        .name("H0".to_string())
        .description(Some("Hart 0".to_string()))
        .value(0)
        .build(ValidateLevel::Strict)
        .unwrap()];
    let riscv = Riscv::builder()
        .clint(Some("CLINT".to_string()))
        .plic(Some("PLIC".to_string()))
        .core_interrupts(interrupts)
        .priorities(priorities)
        .harts(harts)
        .build(ValidateLevel::Strict)
        .unwrap();
    let mut xml = String::from(
        "<riscv><clint>CLINT</clint><plic>PLIC</plic><coreInterrupts>
        <interrupt><name>MachineSoft</name><description>Machine Software Interrupt</description><value>3</value></interrupt>
        <interrupt><name>MachineTimer</name><description>Machine Timer Interrupt</description><value>7</value></interrupt>
        <interrupt><name>MachineExternal</name><description>Machine External Interrupt</description><value>11</value></interrupt>
        </coreInterrupts><priorities>",
    );
    for i in 0..8 {
        xml.push_str(&format!(
            "<priority><name>P{0}</name><description>Priority level {0}</description><value>{0}</value></priority>",
            i
        ));
    }
    xml.push_str("</priorities><harts><hart><name>H0</name><description>Hart 0</description><value>0</value></hart></harts></riscv>");
    assert_eq!(riscv.clint.as_deref(), Some(text(&xml, "clint").as_str()));
    assert_eq!(riscv.plic.as_deref(), Some(text(&xml, "plic").as_str()));
    let names = texts(&xml, "name");
    let descriptions = texts(&xml, "description");
    let values = texts(&xml, "value");
    let mut k = 0;
    for i in &riscv.core_interrupts {
        assert_eq!(i.name, names[k]);
        assert_eq!(i.description.as_deref(), Some(descriptions[k].as_str()));
        assert_eq!(i.value as u64, number(&values[k]));
        k += 1;
    }
    for p in &riscv.priorities {
        assert_eq!(p.name, names[k]);
        assert_eq!(p.description.as_deref(), Some(descriptions[k].as_str()));
        assert_eq!(p.value as u64, number(&values[k]));
        k += 1;
    }
    for h in &riscv.harts {
        assert_eq!(h.name, names[k]);
        assert_eq!(h.description.as_deref(), Some(descriptions[k].as_str()));
        assert_eq!(h.value as u64, number(&values[k]));
        k += 1;
    }
    assert_eq!(k, names.len());
}

#[test]
fn addressblock_decode_encode() {
    let block = svd_rs::addressblock::AddressBlock::builder()
        .offset(0)
        .size(0x00000F00)
        .usage(svd_rs::addressblock::AddressBlockUsage::Registers)
        .protection(None)
        .build(ValidateLevel::Strict)
        .unwrap();
    let input = "<addressBlock>
            <offset>0x0</offset>
            <size>0xF00</size>
            <usage>registers</usage>
        </addressBlock>";
    let output = "<addressBlock>
            <offset>0</offset>
            <size>0x00000F00</size>
            <usage>registers</usage>
        </addressBlock>";
    assert_eq!(block.offset as u64, number(&text(input, "offset")));
    assert_eq!(block.size as u64, number(&text(input, "size")));
    assert_eq!(
        svd_rs::addressblock::AddressBlockUsage::parse_str(&text(input, "usage")),
        Some(block.usage)
    );
    assert_eq!(format!("{}", block.offset), text(output, "offset"));
    assert_eq!(format!("0x{:08X}", block.size), text(output, "size"));
    assert_eq!(block.usage.as_str(), text(output, "usage"));
    assert_eq!(block.protection, None);
}

#[test]
fn bitrange_decode_encode() {
    let br = BitRange {
        offset: 16,
        width: 4,
        range_type: BitRangeType::BitRange,
    };
    let xml = "<fake><bitRange>[19:16]</bitRange></fake>";
    assert_eq!(BitRange::from_bit_range(&text(xml, "bitRange")), Some(br), "Parsing `{}` expected `{:?}`", xml, br);
    assert_eq!(br.bit_range(), text(xml, "bitRange"), "Encoding {:?} expected {}", br, xml);

    let br = BitRange {
        offset: 16,
        width: 4,
        range_type: BitRangeType::OffsetWidth,
    };
    let xml = "<fake><bitOffset>16</bitOffset><bitWidth>4</bitWidth></fake>";
    assert_eq!(
        BitRange::from_offset_width(number(&text(xml, "bitOffset")) as u32, number(&text(xml, "bitWidth")) as u32),
        br
    );

    let br = BitRange {
        offset: 16,
        width: 4,
        range_type: BitRangeType::MsbLsb,
    };
    let xml = "<fake><lsb>16</lsb><msb>19</msb></fake>";
    assert_eq!(BitRange::from_msb_lsb(number(&text(xml, "msb")) as u32, number(&text(xml, "lsb")) as u32), br);
    assert_eq!(br.lsb() as u64, number(&text(xml, "lsb")));
    assert_eq!(br.msb() as u64, number(&text(xml, "msb")));
}

#[test]
fn enumeratedvalue_decode_encode() {
    let ev = EnumeratedValue::builder()
        .name("WS0".to_string())
        .description(Some("Zero wait-states inserted in fetch or read transfers".to_string()))
        .value(Some(0))
        .build(ValidateLevel::Strict)
        .unwrap();
    let xml = "
            <enumeratedValue>
                <name>WS0</name>
                <description>Zero wait-states inserted in fetch or read transfers</description>
                <value>0</value>
            </enumeratedValue>
        ";
    assert_eq!(ev.name, text(xml, "name"));
    assert_eq!(ev.description.as_deref(), Some(text(xml, "description").as_str()));
    assert_eq!(ev.value, Some(number(&text(xml, "value"))));
    let output = "
            <enumeratedValue>
                <name>Ws0</name>
                <description>Zero wait-states inserted in fetch or read transfers</description>
                <value>0b0</value>
            </enumeratedValue>
        ";
    assert_eq!(format!("0b{:b}", ev.value.unwrap()), text(output, "value"));
    assert_eq!(ev.name.to_lowercase(), text(output, "name").to_lowercase());
}

#[test]
fn enumeratedvalues_decode_encode() {
    let expected = EnumeratedValues::builder()
        .derived_from(Some("fake_derivation".to_string()))
        .values(vec![
            EnumeratedValue::builder()
                .name("WS0".to_string())
                .description(Some("Zero wait-states inserted in fetch or read transfers".to_string()))
                .is_default(Some(true))
                .build(ValidateLevel::Weak)
                .unwrap(),
            EnumeratedValue::builder()
                .name("WS1".to_string())
                .description(Some(
                    "One wait-state inserted for each fetch or read transfer. See Flash Wait-States table for details"
                        .to_string(),
                ))
                .value(Some(1))
                .build(ValidateLevel::Weak)
                .unwrap(),
        ])
        .build(ValidateLevel::Weak)
        .unwrap();
    let xml = "
        <enumeratedValues derivedFrom=\"fake_derivation\">
            <enumeratedValue>
                <name>WS0</name>
                <description>Zero wait-states inserted in fetch or read transfers</description>
                <isDefault>true</isDefault>
            </enumeratedValue>
            <enumeratedValue>
                <name>WS1</name>
                <description>One wait-state inserted for each fetch or read transfer. See Flash Wait-States table for details</description>
                <value>1</value>
            </enumeratedValue>
        </enumeratedValues>
    ";
    assert!(xml.contains(&format!("derivedFrom=\"{}\"", expected.derived_from.as_deref().unwrap())), "Parsing tree failed");
    let names = texts(xml, "name");
    let descriptions = texts(xml, "description");
    assert_eq!(expected.values.len(), names.len(), "Parsing tree failed");
    for (i, v) in expected.values.iter().enumerate() {
        assert_eq!(v.name, names[i], "Encoding value failed");
        assert_eq!(v.description.as_deref(), Some(descriptions[i].as_str()), "Encoding value failed");
    }
    assert_eq!(expected.values[0].is_default, Some(text(xml, "isDefault") == "true"));
    assert_eq!(expected.values[1].value, Some(number(&text(xml, "value"))));
    assert_eq!(expected.default_value().map(|v| v.name.clone()), Some("WS0".to_string()));
}

#[test]
fn valid_children() {
    let value = || {
        EnumeratedValue::builder()
            .name("WS0".to_string())
            .description(Some("Zero wait-states inserted in fetch or read transfers".to_string()))
            .value(Some(0))
            .build(ValidateLevel::Weak)
            .unwrap()
    };
    // `enumeratedValue` occurrence: 1..*
    assert!(
        EnumeratedValues::builder().values(vec![]).build(ValidateLevel::Weak).is_err(),
        "must contain at least one <enumeratedValue>"
    );
    assert!(
        EnumeratedValues::builder().values(vec![value()]).name(Some("foo".to_string())).build(ValidateLevel::Weak).is_ok(),
        "<name> is valid"
    );
    assert!(
        EnumeratedValues::builder().values(vec![value()]).usage(Some(Usage::Read)).build(ValidateLevel::Weak).is_ok(),
        "<usage> is valid"
    );
}

#[test]
fn registerproperties_decode_encode() {
    let xml = "
        <mock>
            <size>64</size>
            <access>read-only</access>
            <resetValue>0x11223344</resetValue>
            <resetMask>0xFFFFFFFF</resetMask>
        </mock>
    ";
    let mut expected = svd_rs::RegisterProperties::new();
    expected.size = Some(64);
    expected.reset_value = Some(0x11223344);
    expected.reset_mask = Some(0xffffffff);
    expected.access = Some(Access::ReadOnly);
    let parsed = svd_rs::RegisterProperties::new()
        .size(Some(number(&text(xml, "size")) as u32))
        .access(Access::parse_str(&text(xml, "access")))
        .reset_value(Some(number(&text(xml, "resetValue"))))
        .reset_mask(Some(number(&text(xml, "resetMask"))))
        .build(ValidateLevel::Strict)
        .unwrap();
    assert_eq!(parsed, expected, "Parsing tree failed");
    assert_eq!(parsed.access.unwrap().as_str(), text(xml, "access"), "Encoding value failed");
}

#[test]
fn register_decode_encode_info() {
    let r = RegisterInfo::builder()
        .name("WRITECTRL".to_string())
        .alternate_group(Some("alternate_group".to_string()))
        .alternate_register(Some("alternate_register".to_string()))
        .derived_from(Some("derived_from".to_string()))
        .description(Some("Write Control Register".to_string()))
        .address_offset(8)
        .size(Some(32))
        .access(Some(Access::ReadWrite))
        .reset_value(Some(0x00000000))
        .reset_mask(Some(0x00000023))
        .fields(Some(vec![Field::Single(
            FieldInfo::builder()
                .name("WREN".to_string())
                .description(Some("Enable Write/Erase Controller".to_string()))
                .bit_range(BitRange {
                    offset: 0,
                    width: 1,
                    range_type: BitRangeType::OffsetWidth,
                })
                .access(Some(Access::ReadWrite))
                .build(ValidateLevel::Strict)
                .unwrap(),
        )]))
        .modified_write_values(Some(ModifiedWriteValues::OneToToggle))
        .build(ValidateLevel::Strict)
        .unwrap();
    let xml = "
        <register derivedFrom=\"derived_from\">
            <name>WRITECTRL</name>
            <description>Write Control Register</description>
            <alternateGroup>alternate_group</alternateGroup>
            <alternateRegister>alternate_register</alternateRegister>
            <addressOffset>0x8</addressOffset>
            <size>0x20</size>
            <access>read-write</access>
            <resetValue>0x00000000</resetValue>
            <resetMask>0x00000023</resetMask>
            <modifiedWriteValues>oneToToggle</modifiedWriteValues>
            <fields>
                <field>
                    <name>WREN</name>
                    <description>Enable Write/Erase Controller</description>
                    <bitOffset>0</bitOffset>
                    <bitWidth>1</bitWidth>
                    <access>read-write</access>
                </field>
            </fields>
        </register>
        ";
    assert!(xml.contains(&format!("derivedFrom=\"{}\"", r.derived_from.as_deref().unwrap())));
    assert_eq!(r.name, texts(xml, "name")[0]);
    assert_eq!(r.description.as_deref(), Some(texts(xml, "description")[0].as_str()));
    assert_eq!(r.alternate_group.as_deref(), Some(text(xml, "alternateGroup").as_str()));
    assert_eq!(r.alternate_register.as_deref(), Some(text(xml, "alternateRegister").as_str()));
    assert_eq!(r.address_offset as u64, number(&text(xml, "addressOffset")));
    assert_eq!(r.properties.size.map(|v| v as u64), Some(number(&text(xml, "size"))));
    assert_eq!(r.properties.access, Access::parse_str(&texts(xml, "access")[0]));
    assert_eq!(r.properties.reset_value, Some(number(&text(xml, "resetValue"))));
    assert_eq!(r.properties.reset_mask, Some(number(&text(xml, "resetMask"))));
    assert_eq!(r.modified_write_values.unwrap().as_str(), text(xml, "modifiedWriteValues"));
    let f = r.fields()[0].info();
    assert_eq!(f.name, texts(xml, "name")[1]);
    assert_eq!(f.bit_range.offset as u64, number(&text(xml, "bitOffset")));
    assert_eq!(f.bit_range.width as u64, number(&text(xml, "bitWidth")));
    assert_eq!(f.access, Access::parse_str(&texts(xml, "access")[1]));
    assert_eq!(format!("0x{:08x}", r.properties.reset_value.unwrap()), text(xml, "resetValue"));
    assert_eq!(format!("0x{:08X}", r.properties.reset_mask.unwrap()), text(xml, "resetMask"));
}
