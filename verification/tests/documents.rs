use registry::{
    config_get, config_set, config_test, EnsureKind, KeyStore, MemoryStore, RegistryConfig,
    RegistryError, RegistryValueData, StoreValueData,
};

const CURRENT_VERSION: &str = "HKLM\\Software\\Microsoft\\Windows\\CurrentVersion";

fn text_of(value: &serde_json::Value, field: &str) -> String {
    match value.as_str() {
        Some(text) => text.to_string(),
        None => panic!("{} is not a string", field),
    }
}

fn data_from_json(value: &serde_json::Value) -> RegistryValueData {
    let object = value.as_object().expect("valueData is an object");
    assert_eq!(object.len(), 1);
    let (kind, payload) = object.iter().next().unwrap();
    match kind.as_str() {
        "String" => RegistryValueData::String(text_of(payload, kind)),
        "ExpandString" => RegistryValueData::ExpandString(text_of(payload, kind)),
        "Binary" => RegistryValueData::Binary(
            payload
                .as_array()
                .expect("Binary is an array")
                .iter()
                .map(|b| b.as_u64().expect("a byte") as u8)
                .collect(),
        ),
        "DWord" => RegistryValueData::DWord(payload.as_u64().expect("a number") as u32),
        "MultiString" => RegistryValueData::MultiString(
            payload
                .as_array()
                .expect("MultiString is an array")
                .iter()
                .map(|s| text_of(s, kind))
                .collect(),
        ),
        "QWord" => RegistryValueData::QWord(payload.as_u64().expect("a number")),
        other => panic!("unknown kind of value data: {}", other),
    }
}

fn config_from_json(input: &str) -> RegistryConfig {
    let value: serde_json::Value = serde_json::from_str(input).expect("valid JSON");
    let object = value.as_object().expect("a JSON object");
    let mut config = RegistryConfig::default();
    let mut has_key_path = false;
    for (field, value) in object.iter() {
        match field.as_str() {
            "keyPath" => {
                config.key_path = text_of(value, field);
                has_key_path = true;
            }
            "valueName" => config.value_name = Some(text_of(value, field)),
            "valueData" => config.value_data = Some(data_from_json(value)),
            "_ensure" => {
                config.ensure = Some(match value.as_str() {
                    Some("Present") => EnsureKind::Present,
                    Some("Absent") => EnsureKind::Absent,
                    _ => panic!("_ensure is neither Present nor Absent"),
                })
            }
            "_clobber" => config.clobber = Some(value.as_bool().expect("a flag")),
            "_inDesiredState" => config.in_desired_state = Some(value.as_bool().expect("a flag")),
            other => panic!("unknown field: {}", other),
        }
    }
    assert!(has_key_path);
    config
}

fn quoted(text: &str) -> String {
    serde_json::to_string(text).expect("a string can be written")
}

fn data_to_json(data: &RegistryValueData) -> String {
    match data {
        RegistryValueData::String(s) => format!("{{\"String\":{}}}", quoted(s)),
        RegistryValueData::ExpandString(s) => format!("{{\"ExpandString\":{}}}", quoted(s)),
        RegistryValueData::Binary(b) => {
            let bytes: Vec<String> = b.iter().map(|x| x.to_string()).collect();
            format!("{{\"Binary\":[{}]}}", bytes.join(","))
        }
        RegistryValueData::DWord(n) => format!("{{\"DWord\":{}}}", n),
        RegistryValueData::MultiString(v) => {
            let texts: Vec<String> = v.iter().map(|s| quoted(s)).collect();
            format!("{{\"MultiString\":[{}]}}", texts.join(","))
        }
        RegistryValueData::QWord(n) => format!("{{\"QWord\":{}}}", n),
    }
}

fn to_json(config: &RegistryConfig) -> String {
    let mut fields: Vec<String> = Vec::new();
    fields.push(format!("\"keyPath\":{}", quoted(&config.key_path)));
    if let Some(name) = &config.value_name {
        fields.push(format!("\"valueName\":{}", quoted(name)));
    }
    if let Some(data) = &config.value_data {
        fields.push(format!("\"valueData\":{}", data_to_json(data)));
    }
    if let Some(ensure) = &config.ensure {
        let word = match ensure {
            EnsureKind::Present => "Present",
            EnsureKind::Absent => "Absent",
        };
        fields.push(format!("\"_ensure\":{}", quoted(word)));
    }
    if let Some(clobber) = config.clobber {
        fields.push(format!("\"_clobber\":{}", clobber));
    }
    if let Some(state) = config.in_desired_state {
        fields.push(format!("\"_inDesiredState\":{}", state));
    }
    format!("{{{}}}", fields.join(","))
}

fn windows_store() -> MemoryStore {
    let mut store = MemoryStore::new();
    store.add_key("HKLM");
    let prepared = config_set(&mut store, &RegistryConfig::for_key(CURRENT_VERSION));
    assert!(prepared.is_ok());
    let key = store.open(CURRENT_VERSION).expect("the key was created");
    store
        .set_value(
            &key,
            "ProgramFilesPath",
            &StoreValueData::ExpandString("%ProgramFiles%".to_string()),
        )
        .expect("the value can be written");
    store
}

#[test]
fn test_registry_value_present() {
    let input_json: &str = r#"
    {
        "keyPath": "HKLM\\Software\\Microsoft\\Windows\\CurrentVersion",
        "valueName": "ProgramFilesPath",
        "_ensure": "Present"
    }
    "#;

    let store = windows_store();
    let config: RegistryConfig = config_from_json(input_json);
    let (result, in_desired_state) = config_test(&store, &config).unwrap();
    let json = to_json(&result);
    assert!(in_desired_state);
    assert_eq!(json, r#"{"keyPath":"HKLM\\Software\\Microsoft\\Windows\\CurrentVersion","valueName":"ProgramFilesPath","valueData":{"ExpandString":"%ProgramFiles%"}}"#);
}

#[test]
fn test_registry_value_absent() {
    let input_json: &str = r#"
    {
        "keyPath": "HKLM\\Software\\Microsoft\\Windows\\CurrentVersion",
        "valueName": "DoesNotExist",
        "_ensure": "Absent"
    }
    "#;

    let store = windows_store();
    let config: RegistryConfig = config_from_json(input_json);
    let (result, in_desired_state) = config_test(&store, &config).unwrap();
    let json = to_json(&result);
    assert!(in_desired_state);
    assert_eq!(json, r#"{"keyPath":"HKLM\\Software\\Microsoft\\Windows\\CurrentVersion"}"#);
}

#[test]
fn set_creates_a_missing_value_without_data() {
    let mut store = MemoryStore::new();
    store.add_key("HKLM");
    store.add_key("HKLM\\Software");
    store.add_key("HKLM\\Software\\X");
    let config =
        config_from_json(r#"{"keyPath":"HKLM\\Software\\X","valueName":"P","_ensure":"Present"}"#);
    let (result, in_desired_state) = config_set(&mut store, &config).unwrap();
    assert!(in_desired_state);
    assert_eq!(to_json(&result), r#"{"keyPath":"HKLM\\Software\\X","valueName":"P"}"#);
    assert!(matches!(store.value("HKLM\\Software\\X", "P"), Some(StoreValueData::NoData)));
    assert_eq!(registry::protocol::exit_code(&Ok((result, in_desired_state))), 0);
}

#[test]
fn test_of_a_missing_key_reports_an_empty_path() {
    let mut store = MemoryStore::new();
    store.add_key("HKLM");
    let config = config_from_json(r#"{"keyPath":"HKLM\\Software\\Nowhere","_ensure":"Present"}"#);
    let outcome = config_test(&store, &config);
    assert_eq!(registry::protocol::exit_code(&outcome), 4);
    let (result, in_desired_state) = outcome.unwrap();
    assert!(!in_desired_state);
    assert_eq!(result.key_path, "");
    assert_eq!(to_json(&result), r#"{"keyPath":""}"#);
}

#[test]
fn get_reports_what_set_wrote_as_json() {
    let mut store = MemoryStore::new();
    store.add_key("HKCU");
    let config = config_from_json(
        r#"{"keyPath":"HKCU\\One\\Two","valueName":"List","valueData":{"MultiString":["a","b\\c"]}}"#,
    );
    let (applied, in_desired_state) = config_set(&mut store, &config).unwrap();
    assert!(in_desired_state);
    assert_eq!(
        to_json(&applied),
        r#"{"keyPath":"HKCU\\One\\Two","valueName":"List","valueData":{"MultiString":["a","b\\c"]}}"#
    );
    let read = config_get(&store, &config).unwrap();
    assert_eq!(to_json(&read), to_json(&applied));
    assert_eq!(read.value_data, config.value_data);
}

#[test]
fn get_of_a_missing_key_is_not_found() {
    let store = windows_store();
    let config = config_from_json(r#"{"keyPath":"HKLM\\Software\\Nowhere"}"#);
    assert!(matches!(config_get(&store, &config), Err(RegistryError::NotFound)));
}
