use svd_rs::patch::error::PatchError;
use svd_rs::patch::inclusion::{include_paths, is_included, open_included, read_root, set_text};
use svd_rs::patch::yaml::{get_str, load_yaml, yaml_eq, YamlValue};

fn s(t: &str) -> YamlValue {
    YamlValue::String(t.to_string())
}

#[test]
fn yaml_text_is_read_into_values() {
    let docs = load_yaml("a: 1\nb: [x, y]\nc:\n  d: true\n").unwrap();
    assert_eq!(docs.len(), 1);
    let h = match &docs[0] {
        YamlValue::Hash(h) => h,
        _ => panic!("not a mapping"),
    };
    assert_eq!(h.len(), 3);
    assert!(yaml_eq(&h[0].0, &s("a")) && yaml_eq(&h[0].1, &YamlValue::Integer(1)));
    assert!(yaml_eq(&h[1].1, &YamlValue::Array(vec![s("x"), s("y")])));
    assert!(yaml_eq(&h[2].1, &YamlValue::Hash(vec![(s("d"), YamlValue::Boolean(true))])));
    assert!(load_yaml("a: [1, 2").is_none());
    assert_eq!(load_yaml("").unwrap().len(), 0);
}

#[test]
fn root_file_is_tagged_with_its_path() {
    let root = read_root("_svd: chip.svd\n_path: old\n", "/p/root.yaml").unwrap();
    assert_eq!(root.len(), 2);
    assert_eq!(get_str(&root, "_path"), Some("/p/root.yaml"));
    assert_eq!(get_str(&root, "_svd"), Some("chip.svd"));
    assert!(matches!(read_root("", "/p/root.yaml"), Err(PatchError::Read(_))));
    assert!(matches!(read_root("- 1\n- 2\n", "/p/root.yaml"), Err(PatchError::Read(_))));
}

#[test]
fn text_is_set_in_place_or_added() {
    let mut h = vec![(s("a"), s("1")), (s("b"), s("2"))];
    set_text(&mut h, "a", "3");
    set_text(&mut h, "c", "4");
    assert_eq!(h.len(), 3);
    assert!(yaml_eq(&h[0].1, &s("3")));
    assert!(yaml_eq(&h[2].0, &s("c")) && yaml_eq(&h[2].1, &s("4")));
}

#[test]
fn included_file_is_opened_once() {
    let text = "TIM1:\n  _include: [tim.yaml]\n  _modify: {}\nADC:\n  _delete: [X]\n_include: [common.yaml]\n";
    let mut included: Vec<String> = Vec::new();
    let (child, nested) = open_included(&mut included, "/p/a.yaml", text).unwrap().unwrap();
    assert_eq!(included, vec!["/p/a.yaml".to_string()]);
    assert_eq!(nested, vec![0]);
    assert_eq!(get_str(&child, "_path"), Some("/p/a.yaml"));
    match &child[0].1 {
        YamlValue::Hash(t) => assert_eq!(get_str(t, "_path"), Some("/p/a.yaml")),
        _ => panic!("not a mapping"),
    }
    match &child[1].1 {
        YamlValue::Hash(a) => assert_eq!(get_str(a, "_path"), None),
        _ => panic!("not a mapping"),
    }
    assert!(is_included(&included, "/p/a.yaml"));
    assert!(open_included(&mut included, "/p/a.yaml", text).unwrap().is_none());
    assert_eq!(included.len(), 1);
    assert!(open_included(&mut included, "/p/empty.yaml", "").unwrap().is_none());
    assert!(open_included(&mut included, "/p/bad.yaml", "a: [").is_err());
    assert_eq!(included.len(), 1);
}

#[test]
fn included_paths_are_listed() {
    let h = vec![(s("_path"), s("/p/root.yaml")), (s("_include"), YamlValue::Array(vec![s("a.yaml"), s("b.yaml")]))];
    let (p, v) = include_paths(&h).unwrap();
    assert_eq!(p, "/p/root.yaml");
    assert_eq!(v, vec!["a.yaml".to_string(), "b.yaml".to_string()]);
    let none = vec![(s("_path"), s("/p/root.yaml"))];
    assert!(include_paths(&none).unwrap().1.is_empty());
    let bad = vec![(s("_path"), s("/p/root.yaml")), (s("_include"), YamlValue::Array(vec![YamlValue::Integer(1)]))];
    assert!(include_paths(&bad).is_err());
    assert!(include_paths(&vec![]).is_err());
}
