use svd_rs::patch::cluster_collect::collect_in_cluster;
use svd_rs::patch::collect::collect_fields_in_array;
use svd_rs::patch::device::{
    add_peripheral, copy_peripheral, delete_peripherals, find_peripheral, modify_cpu, modify_peripheral,
    process_peripheral, rebase_peripheral,
};
use svd_rs::patch::device_process;
use svd_rs::patch::error::PatchError;
use svd_rs::patch::merge::update_dict;
use svd_rs::patch::names::{check_offsets, checked_matchname, matchname, spec_ind, spec_tokens, strip_name_end, strip_name_start};
use svd_rs::patch::peripheral::{
    add_interrupt, add_register, copy_register, delete_interrupt, delete_register, modify_cluster, modify_register,
    strip_start,
};
use svd_rs::patch::peripheral_process;
use svd_rs::patch::process;
use svd_rs::patch::register_array::collect_in_array;
use svd_rs::patch::yaml::{parse_bool, parse_i64, yaml_eq, YamlValue};
use svd_rs::{
    BitRange, Cluster, Device, Endian, Field, FieldInfo, Interrupt, Peripheral, PeripheralInfo, Register,
    RegisterCluster, RegisterInfo, ValidateLevel,
};

fn s(t: &str) -> YamlValue {
    YamlValue::String(t.to_string())
}

fn num(v: i64) -> YamlValue {
    YamlValue::Integer(v)
}

fn map(entries: Vec<(&str, YamlValue)>) -> Vec<(YamlValue, YamlValue)> {
    entries.into_iter().map(|(k, v)| (s(k), v)).collect()
}

fn h(entries: Vec<(&str, YamlValue)>) -> YamlValue {
    YamlValue::Hash(map(entries))
}

fn list(items: Vec<YamlValue>) -> YamlValue {
    YamlValue::Array(items)
}

fn field(name: &str, offset: u32, width: u32) -> Field {
    Field::Single(
        FieldInfo::builder()
            .name(name.to_string())
            .bit_range(BitRange::from_offset_width(offset, width))
            .build(ValidateLevel::Disabled)
            .unwrap(),
    )
}

fn register(name: &str, offset: u32, fields: Vec<Field>) -> RegisterInfo {
    let b = RegisterInfo::builder().name(name.to_string()).address_offset(offset);
    let b = if fields.is_empty() { b } else { b.fields(Some(fields)) };
    b.build(ValidateLevel::Disabled).unwrap()
}

fn element(r: RegisterInfo) -> RegisterCluster {
    RegisterCluster::Register(Box::new(Register::Single(r)))
}

fn peripheral(name: &str, base: u64, regs: Vec<RegisterInfo>) -> PeripheralInfo {
    PeripheralInfo::builder()
        .name(name.to_string())
        .base_address(base)
        .registers(Some(regs.into_iter().map(element).collect()))
        .build(ValidateLevel::Disabled)
        .unwrap()
}

fn device(ps: Vec<PeripheralInfo>) -> Device {
    Device::builder()
        .name("DEV".to_string())
        .version("1.0".to_string())
        .description("a device".to_string())
        .address_unit_bits(8)
        .width(32)
        .peripherals(ps.into_iter().map(Peripheral::Single).collect())
        .build(ValidateLevel::Disabled)
        .unwrap()
}

fn names(p: &PeripheralInfo) -> Vec<String> {
    p.registers
        .as_ref()
        .map(|v| v.iter().map(|rc| rc.name().clone()).collect())
        .unwrap_or_default()
}

fn field_names(r: &RegisterInfo) -> Vec<String> {
    r.fields().iter().map(|f| f.info().name.clone()).collect()
}

fn single(rc: &RegisterCluster) -> &RegisterInfo {
    match rc {
        RegisterCluster::Register(b) => match &**b {
            Register::Single(r) => r,
            Register::Array(..) => panic!("expected a single register"),
        },
        RegisterCluster::Cluster(_) => panic!("expected a register"),
    }
}

fn peripheral_names(d: &Device) -> Vec<String> {
    d.peripherals.iter().map(|p| p.info().name.clone()).collect()
}

#[test]
fn glob_patterns_match_names() {
    assert!(matchname("ADC1", "ADC*"));
    assert!(!matchname("TIM1", "ADC*"));
    assert!(matchname("TIM2", "ADC*,TIM?"));
    assert!(matchname("CR1", "CR[12]"));
    assert!(!matchname("CR3", "CR[12]"));
    assert!(!matchname("_X", "_X"));
    assert_eq!(checked_matchname("A", "["), None);
    assert_eq!(checked_matchname("A", "A"), Some(true));
}

#[test]
fn enumeration_tokens_are_found() {
    assert_eq!(spec_ind("ADC[12]_CR"), (3, 3));
    assert_eq!(spec_ind("F*"), (1, 0));
    assert_eq!(spec_tokens("FIELD"), None);
    assert_eq!(spec_tokens("CH?_EN"), Some((2, 3)));
}

#[test]
fn offsets_are_checked() {
    assert!(check_offsets(&[0, 4, 8], 4));
    assert!(!check_offsets(&[0, 4, 12], 4));
    assert!(check_offsets(&[7], 0));
}

#[test]
fn names_are_stripped() {
    assert_eq!(strip_name_start("ADC_CR", "ADC_"), Some(Some("CR".to_string())));
    assert_eq!(strip_name_start("CR", "ADC_"), Some(None));
    assert_eq!(strip_name_end("CR_REG", "_REG"), Some(Some("CR".to_string())));
    assert_eq!(strip_name_start("éX", "?"), None);
    assert_eq!(strip_name_start("A", "["), None);
}

#[test]
fn numbers_and_flags_are_read() {
    assert_eq!(parse_i64(&num(12)), Some(12));
    assert_eq!(parse_i64(&s("0x10")), Some(16));
    assert_eq!(parse_i64(&s("0b101")), Some(5));
    assert_eq!(parse_i64(&s("1_000")), Some(1000));
    assert_eq!(parse_i64(&s("twelve")), None);
    assert_eq!(parse_bool(&YamlValue::Boolean(true)), Some(true));
    assert_eq!(parse_bool(&s("false")), Some(false));
}

#[test]
fn included_file_is_merged() {
    let mut parent = map(vec![("a", s("x")), ("l", list(vec![s("1")]))]);
    let child = map(vec![
        ("a", s("y")),
        ("l", list(vec![s("2")])),
        ("b", s("z")),
        ("_path", s("other.yaml")),
    ]);
    update_dict(&mut parent, &child).unwrap();
    assert_eq!(parent.len(), 3);
    assert!(yaml_eq(&parent[0].0, &s("a")) && yaml_eq(&parent[0].1, &s("x")));
    assert!(yaml_eq(&parent[1].0, &s("l")) && yaml_eq(&parent[1].1, &list(vec![s("1"), s("2")])));
    assert!(yaml_eq(&parent[2].0, &s("b")) && yaml_eq(&parent[2].1, &s("z")));
}

#[test]
fn merging_keeps_the_keys_of_the_including_file() {
    let mut parent = map(vec![("k1", s("v")), ("k2", h(vec![("x", num(1))]))]);
    let child = map(vec![("k2", h(vec![("y", num(2))])), ("k0", s("w"))]);
    update_dict(&mut parent, &child).unwrap();
    assert!(yaml_eq(&parent[0].0, &s("k1")));
    assert!(yaml_eq(&parent[1].0, &s("k2")));
    assert!(yaml_eq(&parent[1].1, &h(vec![("x", num(1)), ("y", num(2))])));
    assert!(yaml_eq(&parent[2].0, &s("k0")));
}

#[test]
fn mapping_cannot_take_a_text() {
    let mut parent = map(vec![("k", h(vec![("x", num(1))]))]);
    let child = map(vec![("k", s("text"))]);
    assert!(matches!(update_dict(&mut parent, &child), Err(PatchError::Value(_))));
}

#[test]
fn register_fields_are_deleted_modified_and_added() {
    let mut r = register("CR", 0, vec![field("A", 0, 1), field("B", 1, 1)]);
    let rmod = map(vec![
        ("_delete", s("A")),
        ("_modify", h(vec![("B", h(vec![("description", s("bee"))]))])),
        ("_add", h(vec![("C", h(vec![("bitOffset", num(2)), ("bitWidth", num(2))]))])),
    ]);
    process::process(&mut r, &rmod, "P", true).unwrap();
    assert_eq!(field_names(&r), vec!["B".to_string(), "C".to_string()]);
    assert_eq!(r.fields()[0].info().description.as_deref(), Some("bee"));
    assert_eq!(r.fields()[1].info().bit_range.offset, 2);
    assert_eq!(r.fields()[1].info().bit_range.width, 2);
    assert_eq!(r.name, "CR");
    assert_eq!(r.address_offset, 0);
}

#[test]
fn processing_changes_only_fields() {
    let mut r = register("CR", 8, vec![field("EN", 0, 1)]);
    let before = r.clone();
    let rmod = map(vec![("_strip", s("E"))]);
    process::process(&mut r, &rmod, "P", true).unwrap();
    assert_eq!(field_names(&r), vec!["N".to_string()]);
    assert_eq!(r.name, before.name);
    assert_eq!(r.address_offset, before.address_offset);
    assert_eq!(r.description, before.description);
    assert_eq!(r.properties, before.properties);
}

#[test]
fn fields_are_collected_into_an_array() {
    let mut r = register("CR", 0, vec![field("F0", 0, 1), field("F1", 1, 1), field("F2", 2, 1), field("X", 4, 1)]);
    collect_fields_in_array(&mut r, "F*", &Vec::new()).unwrap();
    assert_eq!(r.fields().len(), 2);
    match &r.fields()[0] {
        Field::Array(info, dim) => {
            assert_eq!(info.name, "F%s");
            assert_eq!(dim.dim, 3);
            assert_eq!(dim.dim_increment, 1);
            assert_eq!(dim.dim_index, Some(vec!["0".to_string(), "1".to_string(), "2".to_string()]));
        }
        Field::Single(_) => panic!("expected an array"),
    }
    assert_eq!(r.fields()[1].info().name, "X");
}

#[test]
fn uneven_fields_are_not_collected() {
    let mut r = register("CR", 0, vec![field("F0", 0, 1), field("F1", 1, 1), field("F2", 3, 1)]);
    let e = collect_fields_in_array(&mut r, "F*", &Vec::new());
    assert!(matches!(e, Err(PatchError::Collect(_))));
}

#[test]
fn split_needs_one_field() {
    let mut r = register("CR", 0, vec![field("F0", 0, 2), field("F1", 2, 2)]);
    let rmod = map(vec![("_split", list(vec![s("F*")]))]);
    let e = process::process(&mut r, &rmod, "P", true);
    assert!(matches!(e, Err(PatchError::TooMany(_))));
}

#[test]
fn field_split_into_bits() {
    let mut r = register("CR", 0, vec![field("F", 0, 2)]);
    let rmod = map(vec![("_split", list(vec![s("F")]))]);
    process::process(&mut r, &rmod, "P", true).unwrap();
    assert_eq!(field_names(&r), vec!["F0".to_string(), "F1".to_string()]);
    assert_eq!(r.fields()[1].info().bit_range.offset, 1);
    assert_eq!(r.fields()[1].info().bit_range.width, 1);
}

#[test]
fn fields_are_merged() {
    let mut r = register("CR", 0, vec![field("F0", 0, 1), field("F1", 1, 1)]);
    let rmod = map(vec![("_merge", list(vec![s("F*")]))]);
    process::process(&mut r, &rmod, "P", true).unwrap();
    assert_eq!(field_names(&r), vec!["F".to_string()]);
    assert_eq!(r.fields()[0].info().bit_range.offset, 0);
    assert_eq!(r.fields()[0].info().bit_range.width, 2);
}

#[test]
fn enumerations_are_given_once() {
    let mut r = register("CR", 0, vec![field("MODE", 0, 2)]);
    let rmod = map(vec![("MODE", h(vec![("OFF", list(vec![num(0), s("off")])), ("ON", list(vec![num(1), s("on")]))]))]);
    process::process(&mut r, &rmod, "P", true).unwrap();
    let f = r.fields()[0].info();
    assert_eq!(f.enumerated_values.len(), 1);
    assert_eq!(f.enumerated_values[0].values.len(), 2);
    assert_eq!(f.enumerated_values[0].values[0].name, "OFF");
    assert_eq!(f.enumerated_values[0].values[1].value, Some(1));
    let again = process::process(&mut r, &rmod, "P", true);
    assert!(matches!(again, Err(PatchError::Enumerated(_))));
}

#[test]
fn write_constraint_range_is_set() {
    let mut r = register("CR", 0, vec![field("LVL", 0, 4)]);
    let rmod = map(vec![("LVL", list(vec![num(1), num(9)]))]);
    process::process(&mut r, &rmod, "P", true).unwrap();
    let wc = r.fields()[0].info().write_constraint;
    assert_eq!(
        wc,
        Some(svd_rs::WriteConstraint::Range(svd_rs::WriteConstraintRange { min: 1, max: 9 }))
    );
}

#[test]
fn registers_are_deleted_and_none_matches_after() {
    let mut p = peripheral("P", 0, vec![register("R0", 0, vec![]), register("R1", 4, vec![]), register("X", 8, vec![])]);
    delete_register(&mut p, "R*").unwrap();
    assert_eq!(names(&p), vec!["X".to_string()]);
    assert!(names(&p).iter().all(|n| !matchname(n, "R*")));
}

#[test]
fn invalid_glob_is_refused() {
    let mut p = peripheral("P", 0, vec![register("R0", 0, vec![])]);
    let e = delete_register(&mut p, "[");
    assert!(matches!(e, Err(PatchError::InvalidGlob(_))));
    assert_eq!(names(&p), vec!["R0".to_string()]);
}

#[test]
fn register_is_added_once() {
    let mut p = peripheral("P", 0, vec![register("R0", 0, vec![])]);
    let radd = map(vec![("addressOffset", num(4)), ("description", s("second"))]);
    add_register(&mut p, "R1", &radd).unwrap();
    assert_eq!(names(&p), vec!["R0".to_string(), "R1".to_string()]);
    let r1 = single(&p.registers.as_ref().unwrap()[1]);
    assert_eq!(r1.address_offset, 4);
    assert_eq!(r1.description.as_deref(), Some("second"));
    let again = add_register(&mut p, "R1", &radd);
    assert!(matches!(again, Err(PatchError::Exists(_))));
}

#[test]
fn register_without_offset_is_refused() {
    let mut p = peripheral("P", 0, vec![]);
    let e = add_register(&mut p, "R1", &map(vec![("description", s("x"))]));
    assert!(e.is_err());
}

#[test]
fn register_names_are_stripped() {
    let mut p = peripheral("P", 0, vec![register("ADC_CR", 0, vec![]), register("SR", 4, vec![])]);
    strip_start(&mut p, "ADC_").unwrap();
    assert_eq!(names(&p), vec!["CR".to_string(), "SR".to_string()]);
    let mut q = peripheral("Q", 0, vec![register("éX", 0, vec![])]);
    let e = strip_start(&mut q, "?");
    assert!(matches!(e, Err(PatchError::Strip(_))));
}

#[test]
fn interrupts_are_added_and_deleted() {
    let mut p = peripheral("P", 0, vec![]);
    add_interrupt(&mut p, "IRQ1", &map(vec![("value", num(5)), ("description", s("first"))])).unwrap();
    assert_eq!(p.interrupt.len(), 1);
    assert_eq!(p.interrupt[0].value, 5);
    assert_eq!(p.interrupt[0].description.as_deref(), Some("first"));
    let e = add_interrupt(&mut p, "IRQ1", &map(vec![("value", num(6))]));
    assert!(e.is_err());
    delete_interrupt(&mut p, "IRQ*").unwrap();
    assert!(p.interrupt.is_empty());
}

#[test]
fn clusters_cannot_be_modified() {
    let mut p = peripheral("P", 0, vec![register("R0", 0, vec![])]);
    let e = modify_cluster(&mut p, "C*", &Vec::new());
    assert!(matches!(e, Err(PatchError::Unsupported(_))));
}

#[test]
fn registers_are_collected_into_an_array() {
    let mut p = peripheral("P", 0, vec![register("X", 0x20, vec![]), register("R0", 0, vec![]), register("R1", 4, vec![])]);
    collect_in_array(&mut p, "R*", &Vec::new()).unwrap();
    let regs = p.registers.as_ref().unwrap();
    assert_eq!(regs.len(), 2);
    assert_eq!(regs[0].name(), "X");
    match &regs[1] {
        RegisterCluster::Register(b) => match &**b {
            Register::Array(info, dim) => {
                assert_eq!(info.name, "R%s");
                assert_eq!(info.address_offset, 0);
                assert_eq!(dim.dim, 2);
                assert_eq!(dim.dim_increment, 4);
                assert_eq!(dim.dim_index, Some(vec!["0".to_string(), "1".to_string()]));
            }
            Register::Single(_) => panic!("expected an array"),
        },
        RegisterCluster::Cluster(_) => panic!("expected a register"),
    }
}

#[test]
fn missing_registers_are_not_collected() {
    let mut p = peripheral("P", 0, vec![register("X", 0, vec![])]);
    let e = collect_in_array(&mut p, "R*", &Vec::new());
    assert!(matches!(e, Err(PatchError::NotFound(_))));
}

#[test]
fn registers_are_collected_into_a_cluster() {
    let mut p = peripheral(
        "P",
        0,
        vec![
            register("A0", 0, vec![]),
            register("B0", 4, vec![]),
            register("A1", 8, vec![]),
            register("B1", 12, vec![]),
        ],
    );
    let cmod = map(vec![("A*", h(vec![])), ("B*", h(vec![]))]);
    collect_in_cluster(&mut p, "CH%s", &cmod).unwrap();
    let regs = p.registers.as_ref().unwrap();
    assert_eq!(regs.len(), 1);
    match &regs[0] {
        RegisterCluster::Cluster(c) => match &**c {
            Cluster::Array(info, dim) => {
                assert_eq!(info.name, "CH%s");
                assert_eq!(info.address_offset, 0);
                assert_eq!(info.description.as_deref(), Some("Cluster CH%s, containing A*, B*"));
                assert_eq!(dim.dim, 2);
                assert_eq!(dim.dim_increment, 8);
                assert_eq!(dim.dim_index, Some(vec!["0".to_string(), "1".to_string()]));
                assert_eq!(info.children.len(), 2);
                let a = single(&info.children[0]);
                let b = single(&info.children[1]);
                assert_eq!(a.name, "A");
                assert_eq!(a.address_offset, 0);
                assert_eq!(b.name, "B");
                assert_eq!(b.address_offset, 4);
            }
            Cluster::Single(_) => panic!("expected an array"),
        },
        RegisterCluster::Register(_) => panic!("expected a cluster"),
    }
}

#[test]
fn unequal_groups_are_not_clustered() {
    let mut p = peripheral(
        "P",
        0,
        vec![register("A0", 0, vec![]), register("A1", 8, vec![]), register("B0", 4, vec![])],
    );
    let cmod = map(vec![("A*", h(vec![])), ("B*", h(vec![]))]);
    let e = collect_in_cluster(&mut p, "CH%s", &cmod);
    assert!(matches!(e, Err(PatchError::Collect(_))));
}

#[test]
fn peripheral_mapping_is_applied_in_order() {
    let mut p = peripheral("P", 0, vec![register("R0", 0, vec![]), register("R1", 4, vec![])]);
    let pmod = map(vec![
        ("_delete", list(vec![s("R1")])),
        ("_modify", h(vec![("R0", h(vec![("description", s("first"))]))])),
        ("_add", h(vec![("R2", h(vec![("addressOffset", num(8))]))])),
        ("R0", h(vec![("_add", h(vec![("EN", h(vec![("bitOffset", num(0)), ("bitWidth", num(1))]))]))])),
    ]);
    peripheral_process::process(&mut p, &pmod, true).unwrap();
    assert_eq!(names(&p), vec!["R0".to_string(), "R2".to_string()]);
    let r0 = single(&p.registers.as_ref().unwrap()[0]);
    assert_eq!(r0.description.as_deref(), Some("first"));
    assert_eq!(field_names(r0), vec!["EN".to_string()]);
    assert_eq!(p.name, "P");
    assert_eq!(p.base_address, 0);
    assert_eq!(p.derived_from, None);
}

#[test]
fn empty_peripheral_patch_changes_nothing() {
    let mut p = peripheral("P", 0x100, vec![register("R0", 0, vec![])]);
    let before = format!("{:?}", p);
    peripheral_process::process(&mut p, &Vec::new(), true).unwrap();
    assert_eq!(format!("{:?}", p), before);
}

#[test]
fn malformed_peripheral_patch_is_refused() {
    let mut p = peripheral("P", 0, vec![register("R0", 0, vec![])]);
    let pmod = map(vec![("_add", h(vec![("R1", s("not a mapping"))]))]);
    let e = peripheral_process::process(&mut p, &pmod, true);
    assert!(matches!(e, Err(PatchError::Value(_))));
    assert_eq!(names(&p), vec!["R0".to_string()]);
}

#[test]
fn peripheral_is_added_and_found() {
    let mut d = device(vec![peripheral("TIM1", 0x4000_0000, vec![])]);
    let padd = map(vec![("baseAddress", num(0x5000_0000)), ("description", s("adc"))]);
    add_peripheral(&mut d, "ADC", &padd).unwrap();
    assert_eq!(peripheral_names(&d), vec!["TIM1".to_string(), "ADC".to_string()]);
    assert_eq!(find_peripheral(&d.peripherals, "ADC"), Some(1));
    let adc = d.peripherals[1].info();
    assert_eq!(adc.base_address, 0x5000_0000);
    assert_eq!(adc.description.as_deref(), Some("adc"));
    let again = add_peripheral(&mut d, "TIM1", &padd);
    assert!(matches!(again, Err(PatchError::Exists(_))));
}

#[test]
fn peripherals_are_deleted() {
    let mut d = device(vec![
        peripheral("TIM1", 0, vec![]),
        peripheral("ADC", 0x100, vec![]),
        peripheral("TIM2", 0x200, vec![]),
    ]);
    delete_peripherals(&mut d, "TIM*").unwrap();
    assert_eq!(peripheral_names(&d), vec!["ADC".to_string()]);
    let e = delete_peripherals(&mut d, "[");
    assert!(matches!(e, Err(PatchError::InvalidGlob(_))));
}

#[test]
fn peripherals_are_modified() {
    let mut d = device(vec![peripheral("TIM1", 0, vec![]), peripheral("ADC", 0x100, vec![])]);
    let pmod = map(vec![("description", s("timer")), ("baseAddress", num(0x300))]);
    modify_peripheral(&mut d, "TIM*", &pmod).unwrap();
    assert_eq!(d.peripherals[0].info().description.as_deref(), Some("timer"));
    assert_eq!(d.peripherals[0].info().base_address, 0x300);
    assert_eq!(d.peripherals[1].info().description, None);
    assert_eq!(d.peripherals[1].info().base_address, 0x100);
}

#[test]
fn peripheral_is_copied() {
    let mut d = device(vec![peripheral("TIM1", 0x1000, vec![register("CR", 0, vec![])])]);
    d.peripherals[0].info_mut().interrupt.push(Interrupt {
        name: "TIM1_IRQ".to_string(),
        description: None,
        value: 3,
    });
    copy_peripheral(&mut d, "TIM2", &map(vec![("from", s("TIM1"))])).unwrap();
    assert_eq!(peripheral_names(&d), vec!["TIM1".to_string(), "TIM2".to_string()]);
    let t2 = d.peripherals[1].info();
    assert_eq!(t2.base_address, 0x1000);
    assert!(t2.interrupt.is_empty());
    assert_eq!(names(t2), vec!["CR".to_string()]);
    let e = copy_peripheral(&mut d, "TIM3", &map(vec![("from", s("other.svd:TIM1"))]));
    assert!(matches!(e, Err(PatchError::Unsupported(_))));
}

#[test]
fn peripheral_is_rebased() {
    let mut d = device(vec![
        peripheral("TIM1", 0x1000, vec![register("CR", 0, vec![])]),
        peripheral("TIM2", 0x2000, vec![]),
    ]);
    rebase_peripheral(&mut d, "TIM2", "TIM1").unwrap();
    let t1 = d.peripherals[0].info();
    let t2 = d.peripherals[1].info();
    assert_eq!(t1.name, "TIM1");
    assert_eq!(t1.derived_from.as_deref(), Some("TIM2"));
    assert_eq!(t1.base_address, 0x1000);
    assert!(t1.registers.is_none());
    assert_eq!(t2.name, "TIM2");
    assert_eq!(t2.base_address, 0x2000);
    assert_eq!(names(t2), vec!["CR".to_string()]);
    assert!(d.peripherals.iter().all(|p| p.info().derived_from.as_deref() != Some("TIM1")));
}

#[test]
fn cpu_is_built_and_modified() {
    let mut d = device(vec![]);
    let incomplete = map(vec![("name", s("CM4"))]);
    assert!(matches!(modify_cpu(&mut d, &incomplete), Err(PatchError::Invalid(_))));
    assert!(d.cpu.is_none());
    let cmod = map(vec![
        ("name", s("CM4")),
        ("revision", s("r0p1")),
        ("endian", s("little")),
        ("mpuPresent", YamlValue::Boolean(true)),
        ("fpuPresent", YamlValue::Boolean(false)),
        ("nvicPrioBits", num(4)),
        ("vendorSystickConfig", YamlValue::Boolean(false)),
    ]);
    modify_cpu(&mut d, &cmod).unwrap();
    let cpu = d.cpu.clone().unwrap();
    assert_eq!(cpu.name, "CM4");
    assert_eq!(cpu.endian, Endian::Little);
    assert_eq!(cpu.nvic_priority_bits, 4);
    modify_cpu(&mut d, &map(vec![("revision", s("r1p0"))])).unwrap();
    assert_eq!(d.cpu.as_ref().unwrap().revision, "r1p0");
    assert_eq!(d.cpu.as_ref().unwrap().name, "CM4");
}

#[test]
fn peripherals_are_processed() {
    let mut d = device(vec![
        peripheral("TIM1", 0, vec![register("R0", 0, vec![]), register("R1", 4, vec![])]),
        peripheral("ADC", 0x100, vec![register("R1", 0, vec![])]),
    ]);
    let pmod = map(vec![("_delete", list(vec![s("R1")]))]);
    process_peripheral(&mut d, "TIM*", &pmod, true).unwrap();
    assert_eq!(names(d.peripherals[0].info()), vec!["R0".to_string()]);
    assert_eq!(names(d.peripherals[1].info()), vec!["R1".to_string()]);
    let e = process_peripheral(&mut d, "UART*", &pmod, true);
    assert!(matches!(e, Err(PatchError::NotFound(_))));
}

#[test]
fn device_patch_is_applied_in_order() {
    let mut d = device(vec![
        peripheral("TIM1", 0x1000, vec![register("CR", 0, vec![])]),
        peripheral("OLD", 0x2000, vec![]),
    ]);
    let patch = map(vec![
        ("_delete", list(vec![s("OLD")])),
        ("_modify", h(vec![("name", s("NEWDEV")), ("width", num(16)), ("size", num(16))])),
        ("_add", h(vec![("TIM2", h(vec![("baseAddress", num(0x3000))]))])),
        ("_derive", h(vec![("TIM2", s("TIM1"))])),
        ("TIM1", h(vec![("CR", h(vec![("_add", h(vec![("EN", h(vec![("bitOffset", num(0)), ("bitWidth", num(1))]))]))]))])),
    ]);
    device_process::process(&mut d, &patch, true).unwrap();
    assert_eq!(d.name, "NEWDEV");
    assert_eq!(d.width, 16);
    assert_eq!(d.default_register_properties.size, Some(16));
    assert_eq!(peripheral_names(&d), vec!["TIM1".to_string(), "TIM2".to_string()]);
    assert_eq!(d.peripherals[1].info().derived_from.as_deref(), Some("TIM1"));
    let cr = single(&d.peripherals[0].info().registers.as_ref().unwrap()[0]);
    assert_eq!(field_names(cr), vec!["EN".to_string()]);
}

#[test]
fn empty_device_patch_changes_nothing() {
    let mut d = device(vec![peripheral("TIM1", 0x1000, vec![register("CR", 0, vec![])])]);
    let before = format!("{:?}", d);
    device_process::process(&mut d, &Vec::new(), true).unwrap();
    assert_eq!(format!("{:?}", d), before);
}

#[test]
fn unsupported_device_setting_is_refused() {
    let mut d = device(vec![]);
    let patch = map(vec![("_modify", h(vec![("vendor", s("ACME"))]))]);
    let e = device_process::process(&mut d, &patch, true);
    assert!(matches!(e, Err(PatchError::Unsupported(_))));
}

#[test]
fn copy_needs_a_path() {
    let mut d = device(vec![peripheral("TIM1", 0, vec![])]);
    let patch = map(vec![("_copy", h(vec![("TIM2", h(vec![("from", s("TIM1"))]))]))]);
    let e = device_process::process(&mut d, &patch, true);
    assert!(matches!(e, Err(PatchError::Value(_))));
    let patch = map(vec![
        ("_path", s("device.yaml")),
        ("_copy", h(vec![("TIM2", h(vec![("from", s("TIM1"))]))])),
    ]);
    device_process::process(&mut d, &patch, true).unwrap();
    assert_eq!(peripheral_names(&d), vec!["TIM1".to_string(), "TIM2".to_string()]);
}

#[test]
fn invalid_element_is_reported() {
    let mut p = peripheral("P", 0, vec![]);
    let padd = map(vec![("addressOffset", num(0)), ("size", num(8)), ("resetValue", num(0x100))]);
    let e = add_register(&mut p, "R", &padd);
    assert!(matches!(e, Err(PatchError::Invalid(_))));
}

#[test]
fn derived_peripherals_follow_a_derivation() {
    let mut d = device(vec![
        peripheral("TIM1", 0x1000, vec![register("CR", 0, vec![])]),
        peripheral("TIM2", 0x2000, vec![register("CR", 0, vec![])]),
        peripheral("TIM3", 0x3000, vec![]),
    ]);
    d.peripherals[2].info_mut().derived_from = Some("TIM2".to_string());
    let patch = map(vec![("_derive", h(vec![("TIM2", s("TIM1"))]))]);
    device_process::process(&mut d, &patch, true).unwrap();
    assert_eq!(d.peripherals[1].info().derived_from.as_deref(), Some("TIM1"));
    assert!(d.peripherals[1].info().registers.is_none());
    assert_eq!(d.peripherals[2].info().derived_from.as_deref(), Some("TIM1"));
    assert!(d.peripherals.iter().all(|p| p.info().derived_from.as_deref() != Some("TIM2")));
    let missing = map(vec![("_derive", h(vec![("TIM9", s("TIM1"))]))]);
    let e = device_process::process(&mut d, &missing, true);
    assert!(matches!(e, Err(PatchError::NotFound(_))));
}

#[test]
fn names_follow_the_name_rules() {
    assert!(svd_rs::check_name("CTRL_1", "name").is_ok());
    assert!(svd_rs::check_name("CTRL-1", "name").is_err());
    assert!(svd_rs::check_dimable_name("CH%s_EN", "name").is_ok());
    assert!(svd_rs::check_dimable_name("%s", "name").is_ok());
    assert!(svd_rs::check_dimable_name("REG[%s]", "name").is_ok());
    assert!(svd_rs::check_dimable_name("1REG", "name").is_err());
    assert!(svd_rs::check_dimable_name("A B", "name").is_err());
    assert!(svd_rs::check_derived_name("TIM1.CR", "derivedFrom").is_ok());
    assert!(svd_rs::check_derived_name("TIM1..CR", "derivedFrom").is_err());
}

#[test]
fn texts_are_built() {
    assert_eq!(svd_rs::text::u32_to_string(407), "407");
    assert_eq!(svd_rs::text::usize_to_string(0), "0");
    let names = vec!["CH1_EN".to_string(), "CH2_EN".to_string(), "CH".to_string()];
    assert_eq!(svd_rs::text::longest_common_prefix(&names), Some("CH".to_string()));
    assert_eq!(svd_rs::text::longest_common_prefix(&Vec::new()), Some(String::new()));
}

#[test]
fn rebase_fails_exactly_where_a_peripheral_is_missing() {
    let mut d = device(vec![peripheral("TIM1", 0x1000, vec![register("CR", 0, vec![])])]);
    let e = rebase_peripheral(&mut d, "TIM9", "TIM1");
    assert!(matches!(e, Err(PatchError::NotFound(_))));
    let mut d = device(vec![peripheral("TIM1", 0x1000, vec![register("CR", 0, vec![])])]);
    let e = rebase_peripheral(&mut d, "TIM1", "TIM9");
    assert!(matches!(e, Err(PatchError::NotFound(_))));
    let mut d = device(vec![peripheral("TIM1", 0x1000, vec![register("CR", 0, vec![])])]);
    rebase_peripheral(&mut d, "TIM1", "TIM1").unwrap();
    assert_eq!(peripheral_names(&d), vec!["TIM1".to_string()]);
    assert_eq!(names(d.peripherals[0].info()), vec!["CR".to_string()]);
}

#[test]
fn copy_fails_where_the_source_is_missing() {
    let mut d = device(vec![peripheral("TIM1", 0x1000, vec![])]);
    let before = d.clone();
    let e = copy_peripheral(&mut d, "TIM2", &map(vec![("from", s("TIM7"))]));
    assert!(matches!(e, Err(PatchError::NotFound(_))));
    assert_eq!(peripheral_names(&d), peripheral_names(&before));
    let e = copy_peripheral(&mut d, "TIM2", &map(vec![]));
    assert!(e.is_err());
}

#[test]
fn modification_fails_where_the_default_properties_are_not_valid() {
    let mut d = device(vec![peripheral("TIM1", 0, vec![])]);
    let pmod = map(vec![("size", num(8)), ("resetValue", num(0x1FF))]);
    let e = modify_peripheral(&mut d, "TIM*", &pmod);
    assert!(matches!(e, Err(PatchError::Invalid(_))));
    let mut d = device(vec![peripheral("TIM1", 0, vec![])]);
    let pmod = map(vec![("size", num(16)), ("resetValue", num(0x1FF))]);
    modify_peripheral(&mut d, "TIM*", &pmod).unwrap();
    assert_eq!(d.peripherals[0].info().default_register_properties.size, Some(16));
}

#[test]
fn register_modification_fails_where_the_properties_are_not_valid() {
    let mut p = peripheral("TIM1", 0, vec![register("CR", 0, vec![])]);
    let rmod = map(vec![("size", num(8)), ("resetValue", num(0x1FF))]);
    let e = modify_register(&mut p, "CR", &rmod);
    assert!(matches!(e, Err(PatchError::Invalid(_))));
    let mut p = peripheral("TIM1", 0, vec![register("CR", 0, vec![])]);
    let rmod = map(vec![("size", num(16)), ("resetValue", num(0x1FF))]);
    modify_register(&mut p, "CR", &rmod).unwrap();
}

#[test]
fn register_copy_fails_where_the_properties_are_not_valid() {
    let mut p = peripheral("TIM1", 0, vec![register("CR", 0, vec![])]);
    let before = p.clone();
    let rderive = map(vec![("_from", s("CR")), ("size", num(8)), ("resetValue", num(0x1FF))]);
    let e = copy_register(&mut p, "CR2", &rderive);
    assert!(matches!(e, Err(PatchError::Invalid(_))));
    assert_eq!(names(&p), names(&before));
    let rderive = map(vec![("_from", s("CR")), ("size", num(16)), ("resetValue", num(0x1FF))]);
    copy_register(&mut p, "CR2", &rderive).unwrap();
    assert_eq!(names(&p), vec!["CR".to_string(), "CR2".to_string()]);
}

#[test]
fn additions_fail_where_the_properties_are_not_valid() {
    let mut p = peripheral("TIM1", 0, vec![]);
    let radd = map(vec![("addressOffset", num(4)), ("size", num(8)), ("resetValue", num(0x1FF))]);
    assert!(matches!(add_register(&mut p, "SR", &radd), Err(PatchError::Invalid(_))));
    assert!(names(&p).is_empty());
    let radd = map(vec![("addressOffset", num(4)), ("size", num(16)), ("resetValue", num(0x1FF))]);
    add_register(&mut p, "SR", &radd).unwrap();
    assert_eq!(names(&p), vec!["SR".to_string()]);
    let mut d = device(vec![]);
    let padd = map(vec![("baseAddress", num(0x100)), ("size", num(8)), ("resetValue", num(0x1FF))]);
    assert!(matches!(add_peripheral(&mut d, "ADC", &padd), Err(PatchError::Invalid(_))));
    assert!(d.peripherals.is_empty());
    let padd = map(vec![("baseAddress", num(0x100)), ("derivedFrom", s("TIM1")), ("size", num(8)), ("resetValue", num(0x1FF))]);
    add_peripheral(&mut d, "ADC", &padd).unwrap();
    assert_eq!(d.peripherals[0].info().derived_from.as_deref(), Some("TIM1"));
}

#[test]
fn merged_mappings_hold_each_key_once() {
    let mut parent = map(vec![("a", h(vec![("x", num(1))])), ("b", s("v"))]);
    let child = map(vec![("a", h(vec![("x", num(2)), ("y", num(3))])), ("c", s("w")), ("b", s("u"))]);
    update_dict(&mut parent, &child).unwrap();
    let keys: Vec<&YamlValue> = parent.iter().map(|e| &e.0).collect();
    for i in 0..keys.len() {
        for j in (i + 1)..keys.len() {
            assert!(!yaml_eq(keys[i], keys[j]));
        }
    }
    assert_eq!(parent.len(), 3);
    assert!(yaml_eq(&parent[0].1, &h(vec![("x", num(1)), ("y", num(3))])));
}

#[test]
fn oversized_glob_counts_as_invalid() {
    let huge = "?".repeat(300_000);
    assert_eq!(checked_matchname("A", &huge), None);
    assert_eq!(checked_matchname("A", "?"), Some(true));
}

#[test]
fn copied_peripheral_holds_the_source_registers() {
    let cr = register("CR", 4, vec![field("EN", 0, 1), field("MODE", 1, 2)]);
    let mut d = device(vec![peripheral("TIM1", 0x1000, vec![cr])]);
    copy_peripheral(&mut d, "TIM2", &map(vec![("from", s("TIM1"))])).unwrap();
    let src = d.peripherals[0].info().registers.as_ref().unwrap();
    let dst = d.peripherals[1].info().registers.as_ref().unwrap();
    assert_eq!(src.len(), dst.len());
    match (&src[0], &dst[0]) {
        (RegisterCluster::Register(a), RegisterCluster::Register(b)) => {
            assert_eq!(a.info().name, b.info().name);
            assert_eq!(a.info().address_offset, b.info().address_offset);
            assert_eq!(field_names(a.info()), field_names(b.info()));
            assert_eq!(field_names(b.info()), vec!["EN".to_string(), "MODE".to_string()]);
        },
        _ => panic!("not a register"),
    }
}
