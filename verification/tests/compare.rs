use registry::compare::{
    convert_config_data, convert_store_data, key_matches, reg_values_are_eq, value_matches,
};
use registry::{
    EnsureKind, RegistryConfig, RegistryError, RegistryValue, RegistryValueData, StoreValueData,
};

fn wanted(name: &str, data: Option<RegistryValueData>, ensure: Option<EnsureKind>) -> RegistryConfig {
    let mut config = RegistryConfig::for_key("HKLM\\K");
    config.value_name = Some(name.to_string());
    config.value_data = data;
    config.ensure = ensure;
    config
}

fn held(name: &str, data: StoreValueData) -> RegistryValue {
    RegistryValue { key_path: "HKLM\\K".to_string(), name: name.to_string(), data }
}

#[test]
fn key_matches_present_iff_exists() {
    assert!(key_matches(EnsureKind::Present, true));
    assert!(!key_matches(EnsureKind::Present, false));
    assert!(!key_matches(EnsureKind::Absent, true));
    assert!(key_matches(EnsureKind::Absent, false));
}

#[test]
fn equal_data_of_the_same_kind_matches() {
    let config = wanted("V", Some(RegistryValueData::DWord(7)), None);
    assert!(reg_values_are_eq(&config, &held("V", StoreValueData::DWord(7))));
    assert!(!reg_values_are_eq(&config, &held("V", StoreValueData::DWord(8))));
}

#[test]
fn same_payload_of_another_kind_does_not_match() {
    let config = wanted("V", Some(RegistryValueData::String("x".to_string())), None);
    assert!(reg_values_are_eq(&config, &held("V", StoreValueData::String("x".to_string()))));
    assert!(!reg_values_are_eq(&config, &held("V", StoreValueData::ExpandString("x".to_string()))));
    let config = wanted("V", Some(RegistryValueData::DWord(1)), None);
    assert!(!reg_values_are_eq(&config, &held("V", StoreValueData::QWord(1))));
}

#[test]
fn names_are_compared_exactly() {
    let config = wanted("Value", Some(RegistryValueData::DWord(7)), None);
    assert!(!reg_values_are_eq(&config, &held("value", StoreValueData::DWord(7))));
    let config = wanted("Value", None, None);
    assert!(!reg_values_are_eq(&config, &held("value", StoreValueData::DWord(7))));
    assert!(reg_values_are_eq(&config, &held("Value", StoreValueData::DWord(7))));
}

#[test]
fn any_data_satisfies_a_document_without_data() {
    let config = wanted("V", None, Some(EnsureKind::Present));
    assert!(reg_values_are_eq(&config, &held("V", StoreValueData::Binary(vec![1, 2]))));
    assert!(reg_values_are_eq(&config, &held("V", StoreValueData::Unsupported)));
}

#[test]
fn a_value_without_data_satisfies_no_document() {
    let without = wanted("V", None, Some(EnsureKind::Present));
    assert!(!reg_values_are_eq(&without, &held("V", StoreValueData::NoData)));
    let with = wanted("V", Some(RegistryValueData::String(String::new())), None);
    assert!(!reg_values_are_eq(&with, &held("V", StoreValueData::NoData)));
}

#[test]
fn unsupported_data_equals_no_document_data() {
    let config = wanted("V", Some(RegistryValueData::Binary(vec![])), None);
    assert!(!reg_values_are_eq(&config, &held("V", StoreValueData::Unsupported)));
}

#[test]
fn multi_strings_are_compared_in_order() {
    let list = |texts: &[&str]| texts.iter().map(|t| t.to_string()).collect::<Vec<String>>();
    let config = wanted("V", Some(RegistryValueData::MultiString(list(&["a", "b"]))), None);
    assert!(reg_values_are_eq(&config, &held("V", StoreValueData::MultiString(list(&["a", "b"])))));
    assert!(!reg_values_are_eq(&config, &held("V", StoreValueData::MultiString(list(&["b", "a"])))));
    assert!(!reg_values_are_eq(&config, &held("V", StoreValueData::MultiString(list(&["a"])))));
    assert!(!reg_values_are_eq(&config, &held("V", StoreValueData::MultiString(list(&["a", "b", ""])))));
}

#[test]
fn absent_matches_only_what_was_not_found() {
    let config = wanted("V", None, Some(EnsureKind::Absent));
    assert!(value_matches(&config, None));
    assert!(!value_matches(&config, Some(&held("V", StoreValueData::DWord(1)))));
    assert!(!value_matches(&config, Some(&held("V", StoreValueData::NoData))));
}

#[test]
fn present_does_not_match_what_was_not_found() {
    let config = wanted("V", None, Some(EnsureKind::Present));
    assert!(!value_matches(&config, None));
    assert!(value_matches(&config, Some(&held("V", StoreValueData::DWord(1)))));
    let defaulted = wanted("V", None, None);
    assert!(!value_matches(&defaulted, None));
    assert!(value_matches(&defaulted, Some(&held("V", StoreValueData::DWord(1)))));
}

#[test]
fn a_document_without_a_value_name_equals_no_value() {
    let config = RegistryConfig::for_key("HKLM\\K");
    assert!(!reg_values_are_eq(&config, &held("", StoreValueData::DWord(1))));
}

#[test]
fn store_data_of_the_six_kinds_converts() {
    assert_eq!(
        convert_store_data(&StoreValueData::String("s".to_string())).unwrap(),
        RegistryValueData::String("s".to_string())
    );
    assert_eq!(
        convert_store_data(&StoreValueData::ExpandString("%x%".to_string())).unwrap(),
        RegistryValueData::ExpandString("%x%".to_string())
    );
    assert_eq!(
        convert_store_data(&StoreValueData::Binary(vec![0, 255])).unwrap(),
        RegistryValueData::Binary(vec![0, 255])
    );
    assert_eq!(
        convert_store_data(&StoreValueData::DWord(u32::MAX)).unwrap(),
        RegistryValueData::DWord(u32::MAX)
    );
    assert_eq!(
        convert_store_data(&StoreValueData::MultiString(vec!["a".to_string()])).unwrap(),
        RegistryValueData::MultiString(vec!["a".to_string()])
    );
    assert_eq!(
        convert_store_data(&StoreValueData::QWord(u64::MAX)).unwrap(),
        RegistryValueData::QWord(u64::MAX)
    );
}

#[test]
fn store_data_of_other_kinds_is_refused() {
    assert!(matches!(
        convert_store_data(&StoreValueData::NoData),
        Err(RegistryError::UnsupportedValueKind)
    ));
    assert!(matches!(
        convert_store_data(&StoreValueData::Unsupported),
        Err(RegistryError::UnsupportedValueKind)
    ));
}

#[test]
fn document_data_converts_and_comes_back() {
    let all = vec![
        RegistryValueData::String("s".to_string()),
        RegistryValueData::ExpandString("%x%".to_string()),
        RegistryValueData::Binary(vec![1, 2, 3]),
        RegistryValueData::DWord(42),
        RegistryValueData::MultiString(vec!["a".to_string(), String::new()]),
        RegistryValueData::QWord(1 << 40),
    ];
    for data in all {
        let stored = convert_config_data(&data);
        assert_eq!(convert_store_data(&stored).unwrap(), data);
    }
    assert!(matches!(
        convert_config_data(&RegistryValueData::DWord(42)),
        StoreValueData::DWord(42)
    ));
}
