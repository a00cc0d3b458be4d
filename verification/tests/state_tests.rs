use rex_core::sort::sort_by_name;
use rex_core::state::{SessionInfo, SessionMetadata, StateTab};
use rex_core::value::{
    flatten_toml_fields, format_value, parse_value, set_nested_value, toml_value_to_string,
    write_toml_table, ConfigTable, ConfigValue,
};
use std::collections::HashMap;

fn to_config_value(v: &toml::Value) -> ConfigValue {
    match v {
        toml::Value::String(s) => ConfigValue::String(s.clone()),
        toml::Value::Integer(i) => ConfigValue::Integer(*i),
        toml::Value::Float(f) => ConfigValue::Float(f.to_string()),
        toml::Value::Boolean(b) => ConfigValue::Boolean(*b),
        toml::Value::Datetime(d) => ConfigValue::Datetime(d.to_string()),
        toml::Value::Array(a) => ConfigValue::Array(a.iter().map(to_config_value).collect()),
        toml::Value::Table(t) => ConfigValue::Table(to_config_table(t)),
    }
}

fn to_config_table(t: &toml::map::Map<String, toml::Value>) -> ConfigTable {
    let mut table = ConfigTable::new();
    for (k, v) in t {
        table.insert(k.clone(), to_config_value(v));
    }
    table
}

fn float(f: f64) -> ConfigValue {
    ConfigValue::Float(f.to_string())
}

fn float_text(s: &str) -> Option<String> {
    s.parse::<f64>().ok().map(|f| f.to_string())
}

fn table_of(v: &ConfigValue) -> &ConfigTable {
    match v {
        ConfigValue::Table(t) => t,
        other => panic!("Expected a table, got {:?}", other),
    }
}

/// The device configuration of the example file:
///
/// [device.iHR550]
/// forced_initialisation = true
/// grating = "VIS"
/// step_size = 0.1
/// initial_wavelength = 500
/// final_wavelength = 600
///
/// [device.iHR550.slits]
/// Entrance_Front = 0.5
/// Entrance_Side = 0.0
/// Exit_Front = 0.5
/// Exit_Side = 0.5
///
/// [device.iHR550.mirrors]
/// Entrance = "front"
/// Exit = "side"
fn example_device_config() -> ConfigTable {
    let mut config = ConfigTable::new();
    config.insert("forced_initialisation".to_string(), ConfigValue::Boolean(true));
    config.insert("grating".to_string(), ConfigValue::String("VIS".to_string()));
    config.insert("step_size".to_string(), float(0.1));
    config.insert("initial_wavelength".to_string(), ConfigValue::Integer(500));
    config.insert("final_wavelength".to_string(), ConfigValue::Integer(600));

    let mut slits = ConfigTable::new();
    slits.insert("Entrance_Front".to_string(), float(0.5));
    slits.insert("Entrance_Side".to_string(), float(0.0));
    slits.insert("Exit_Front".to_string(), float(0.5));
    slits.insert("Exit_Side".to_string(), float(0.5));
    config.insert("slits".to_string(), ConfigValue::Table(slits));

    let mut mirrors = ConfigTable::new();
    mirrors.insert("Entrance".to_string(), ConfigValue::String("front".to_string()));
    mirrors.insert("Exit".to_string(), ConfigValue::String("side".to_string()));
    config.insert("mirrors".to_string(), ConfigValue::Table(mirrors));

    config
}

fn example_toml_str() -> &'static str {
    r#"[experiment.info]
name = "John Doe"
email = "test@canterbury.ac.nz"
experiment_name = "Test Experiment"
experiment_description = "This is a test experiment"

[device.Test_DAQ]
gate_time = 1000
averages = 40

[device.iHR550]
forced_initialisation = true
grating = "VIS"
step_size = 0.1
initial_wavelength = 500
final_wavelength = 600

[device.iHR550.slits]
Entrance_Front = 0.5
Entrance_Side = 0.0
Exit_Front = 0.5
Exit_Side = 0.5

[device.iHR550.mirrors]
Entrance = "front"
Exit = "side"
"#
}

fn text_field(t: &toml::map::Map<String, toml::Value>, names: &[&str]) -> String {
    for n in names {
        if let Some(toml::Value::String(s)) = t.get(*n) {
            return s.clone();
        }
    }
    String::new()
}

/// Reads a configuration file's session (from `[session.info]` or
/// `[experiment.info]`) and its devices.
fn load_config(contents: &str) -> (Option<SessionInfo>, ConfigTable) {
    let doc: toml::Value = toml::from_str(contents).expect("Failed to parse example TOML");
    let session = doc
        .get("session")
        .or_else(|| doc.get("experiment"))
        .and_then(|s| s.get("info"))
        .and_then(|i| i.as_table())
        .map(|info| SessionInfo {
            name: text_field(info, &["name"]),
            email: text_field(info, &["email"]),
            session_name: text_field(info, &["session_name", "experiment_name"]),
            session_description: text_field(
                info,
                &["session_description", "experiment_description"],
            ),
            meta: info
                .get("meta")
                .and_then(|m| m.as_table())
                .map(|m| SessionMetadata { meta: to_config_table(m) }),
        });
    let devices = doc
        .get("device")
        .and_then(|d| d.as_table())
        .map(to_config_table)
        .unwrap_or_else(ConfigTable::new);
    (session, devices)
}

fn loaded_tab() -> StateTab {
    let mut tab = StateTab::new(false, None, Some(".".to_string()));
    let (session, devices) = load_config(example_toml_str());
    tab.apply_loaded_config(session, devices);
    tab
}

fn device_config<'a>(tab: &'a StateTab, name: &str) -> &'a ConfigTable {
    table_of(tab.device_configs.get(name).expect("device should be configured"))
}

// ---------------------------------------------------------------
// flatten_toml_fields
// ---------------------------------------------------------------

#[test]
fn test_flatten_flat_config() {
    let mut config = ConfigTable::new();
    config.insert("gate_time".to_string(), ConfigValue::Integer(1000));
    config.insert("averages".to_string(), ConfigValue::Integer(40));

    let mut fields: Vec<(String, String)> = Vec::new();
    flatten_toml_fields(&config, "", &mut fields);
    sort_by_name(&mut fields);

    assert_eq!(fields.len(), 2);
    assert_eq!(fields[0], ("averages".to_string(), "40".to_string()));
    assert_eq!(fields[1], ("gate_time".to_string(), "1000".to_string()));
}

#[test]
fn test_flatten_nested_config() {
    let config = example_device_config();

    let mut fields: Vec<(String, String)> = Vec::new();
    flatten_toml_fields(&config, "", &mut fields);
    sort_by_name(&mut fields);

    // 5 top-level + 4 slits + 2 mirrors = 11 leaf fields
    assert_eq!(fields.len(), 11);

    let field_map: HashMap<String, String> = fields.into_iter().collect();
    assert_eq!(field_map["forced_initialisation"], "true");
    assert_eq!(field_map["grating"], "VIS");
    assert_eq!(field_map["step_size"], "0.1");
    assert_eq!(field_map["initial_wavelength"], "500");
    assert_eq!(field_map["final_wavelength"], "600");
    assert_eq!(field_map["slits.Entrance_Front"], "0.5");
    assert_eq!(field_map["slits.Entrance_Side"], "0");
    assert_eq!(field_map["slits.Exit_Front"], "0.5");
    assert_eq!(field_map["slits.Exit_Side"], "0.5");
    assert_eq!(field_map["mirrors.Entrance"], "front");
    assert_eq!(field_map["mirrors.Exit"], "side");
}

#[test]
fn test_flatten_with_prefix() {
    let mut config = ConfigTable::new();
    config.insert("voltage".to_string(), float(3.3));

    let mut fields: Vec<(String, String)> = Vec::new();
    flatten_toml_fields(&config, "sensor", &mut fields);

    assert_eq!(fields.len(), 1);
    assert_eq!(fields[0].0, "sensor.voltage");
    assert_eq!(fields[0].1, "3.3");
}

#[test]
fn test_flatten_deeply_nested() {
    let mut inner = ConfigTable::new();
    inner.insert("value".to_string(), ConfigValue::Integer(42));

    let mut mid = ConfigTable::new();
    mid.insert("deep".to_string(), ConfigValue::Table(inner));

    let mut config = ConfigTable::new();
    config.insert("level1".to_string(), ConfigValue::Table(mid));

    let mut fields: Vec<(String, String)> = Vec::new();
    flatten_toml_fields(&config, "", &mut fields);

    assert_eq!(fields.len(), 1);
    assert_eq!(fields[0], ("level1.deep.value".to_string(), "42".to_string()));
}

#[test]
fn test_flatten_empty_table() {
    let mut config = ConfigTable::new();
    config.insert("empty".to_string(), ConfigValue::Table(ConfigTable::new()));

    let mut fields: Vec<(String, String)> = Vec::new();
    flatten_toml_fields(&config, "", &mut fields);

    // An empty nested table produces no leaf fields
    assert_eq!(fields.len(), 0);
}

// ---------------------------------------------------------------
// set_nested_value
// ---------------------------------------------------------------

#[test]
fn test_set_nested_value_flat_key() {
    let mut config = ConfigTable::new();
    config.insert("grating".to_string(), ConfigValue::String("VIS".to_string()));

    set_nested_value(&mut config, "grating", ConfigValue::String("NIR".to_string()));

    assert_eq!(config.get("grating"), Some(&ConfigValue::String("NIR".to_string())));
}

#[test]
fn test_set_nested_value_one_level_deep() {
    let mut config = example_device_config();

    set_nested_value(&mut config, "slits.Entrance_Front", float(1.0));

    let slits = table_of(config.get("slits").expect("slits"));
    assert_eq!(slits.get("Entrance_Front"), Some(&float(1.0)));
    // Other slit values should be unchanged
    assert_eq!(slits.get("Entrance_Side"), Some(&float(0.0)));
}

#[test]
fn test_set_nested_value_creates_intermediate_tables() {
    let mut config = ConfigTable::new();
    config.insert("grating".to_string(), ConfigValue::String("VIS".to_string()));

    set_nested_value(&mut config, "new_section.new_key", ConfigValue::Integer(99));

    assert!(config.get("new_section").is_some());
    let section = table_of(config.get("new_section").unwrap());
    assert_eq!(section.get("new_key"), Some(&ConfigValue::Integer(99)));
}

#[test]
fn test_set_nested_value_deeply_nested_creates_path() {
    let mut config = ConfigTable::new();

    set_nested_value(&mut config, "a.b.c", ConfigValue::Boolean(true));

    let a = table_of(config.get("a").expect("Expected a to be a Table"));
    let b = table_of(a.get("b").expect("Expected b to be a Table"));
    assert_eq!(b.get("c"), Some(&ConfigValue::Boolean(true)));
}

// ---------------------------------------------------------------
// write_toml_table
// ---------------------------------------------------------------

#[test]
fn test_write_toml_table_flat() {
    let mut table = ConfigTable::new();
    table.insert("Entrance_Front".to_string(), float(0.5));
    table.insert("Exit_Side".to_string(), float(0.5));

    let mut output = String::new();
    write_toml_table(&mut output, "device.iHR550.slits", &table);

    assert!(output.contains("[device.iHR550.slits]"));
    assert!(output.contains("Entrance_Front = 0.5"));
    assert!(output.contains("Exit_Side = 0.5"));
}

#[test]
fn test_write_toml_table_nested() {
    let mut inner = ConfigTable::new();
    inner.insert("value".to_string(), ConfigValue::Integer(42));

    let mut table = ConfigTable::new();
    table.insert("flat_key".to_string(), ConfigValue::Boolean(true));
    table.insert("nested".to_string(), ConfigValue::Table(inner));

    let mut output = String::new();
    write_toml_table(&mut output, "device.test", &table);

    // Flat keys appear under the parent section
    assert!(output.contains("[device.test]"));
    assert!(output.contains("flat_key = true"));
    // Nested table gets its own section header
    assert!(output.contains("[device.test.nested]"));
    assert!(output.contains("value = 42"));
}

#[test]
fn test_write_toml_table_keys_sorted() {
    let mut table = ConfigTable::new();
    table.insert("zebra".to_string(), ConfigValue::Integer(3));
    table.insert("alpha".to_string(), ConfigValue::Integer(1));
    table.insert("middle".to_string(), ConfigValue::Integer(2));

    let mut output = String::new();
    write_toml_table(&mut output, "test", &table);

    let alpha_pos = output.find("alpha").unwrap();
    let middle_pos = output.find("middle").unwrap();
    let zebra_pos = output.find("zebra").unwrap();
    assert!(alpha_pos < middle_pos);
    assert!(middle_pos < zebra_pos);
}

// ---------------------------------------------------------------
// format_value / toml_value_to_string
// ---------------------------------------------------------------

#[test]
fn test_format_value_primitives() {
    assert_eq!(format_value(&ConfigValue::String("hello".into())), "hello");
    assert_eq!(format_value(&ConfigValue::Integer(42)), "42");
    assert_eq!(format_value(&float(3.14)), "3.14");
    assert_eq!(format_value(&ConfigValue::Boolean(true)), "true");
}

#[test]
fn test_format_value_array() {
    let arr = ConfigValue::Array(vec![ConfigValue::Integer(1), ConfigValue::Integer(2)]);
    assert_eq!(format_value(&arr), "[1, 2]");
}

#[test]
fn test_format_value_table_not_opaque() {
    let mut table = ConfigTable::new();
    table.insert("a".to_string(), ConfigValue::Integer(1));
    let val = ConfigValue::Table(table);
    let result = format_value(&val);
    // Should NOT be the old "{...}" opaque display
    assert!(!result.contains("{...}"));
    assert!(result.contains("a"));
    assert!(result.contains("1"));
}

#[test]
fn test_toml_value_to_string_primitives() {
    assert_eq!(toml_value_to_string(&ConfigValue::String("hello".into())), "\"hello\"");
    assert_eq!(toml_value_to_string(&ConfigValue::Integer(42)), "42");
    assert_eq!(toml_value_to_string(&float(3.14)), "3.14");
    assert_eq!(toml_value_to_string(&ConfigValue::Boolean(true)), "true");
}

#[test]
fn test_toml_value_to_string_float_serialization() {
    // Fractional floats already have a decimal point — output unchanged
    assert_eq!(toml_value_to_string(&float(2.5)), "2.5");
    assert_eq!(toml_value_to_string(&float(0.1)), "0.1");
    assert_eq!(toml_value_to_string(&float(3.14)), "3.14");

    // Whole-number floats need ".0" appended to avoid integer reparse
    assert_eq!(toml_value_to_string(&float(2.0)), "2.0");
    assert_eq!(toml_value_to_string(&float(100.0)), "100.0");
    assert_eq!(toml_value_to_string(&float(0.0)), "0.0");

    // Scientific notation is left as-is (already unambiguously float)
    assert_eq!(toml_value_to_string(&float(1e10)), "10000000000.0");

    // Round-trip: writing then re-parsing should preserve the float type
    let val = float(2.0);
    let serialized = toml_value_to_string(&val);
    let toml_str = format!("x = {}", serialized);
    let parsed: toml::Value = toml::from_str(&toml_str).unwrap();
    assert!(
        parsed["x"].is_float(),
        "Expected float after round-trip of 2.0, got: {:?}",
        parsed["x"]
    );

    let val = float(2.5);
    let serialized = toml_value_to_string(&val);
    let toml_str = format!("x = {}", serialized);
    let parsed: toml::Value = toml::from_str(&toml_str).unwrap();
    assert!(
        parsed["x"].is_float(),
        "Expected float after round-trip of 2.5, got: {:?}",
        parsed["x"]
    );
    assert_eq!(parsed["x"].as_float().unwrap(), 2.5);
}

#[test]
fn test_toml_value_to_string_table_not_empty() {
    let mut table = ConfigTable::new();
    table.insert("x".to_string(), ConfigValue::Integer(10));
    let val = ConfigValue::Table(table);
    let result = toml_value_to_string(&val);
    // Should NOT be the old "{}"
    assert_ne!(result, "{}");
    assert!(result.contains("x = 10"));
}

// ---------------------------------------------------------------
// parse_value
// ---------------------------------------------------------------

#[test]
fn test_parse_value_integer() {
    assert_eq!(parse_value("42", float_text("42")), ConfigValue::Integer(42));
    assert_eq!(parse_value("-7", float_text("-7")), ConfigValue::Integer(-7));
}

#[test]
fn test_parse_value_float() {
    assert_eq!(parse_value("3.14", float_text("3.14")), float(3.14));
    assert_eq!(parse_value("0.5", float_text("0.5")), float(0.5));
}

#[test]
fn test_parse_value_bool() {
    assert_eq!(parse_value("true", float_text("true")), ConfigValue::Boolean(true));
    assert_eq!(parse_value("false", float_text("false")), ConfigValue::Boolean(false));
}

#[test]
fn test_parse_value_string_fallback() {
    assert_eq!(
        parse_value("hello world", float_text("hello world")),
        ConfigValue::String("hello world".to_string())
    );
    assert_eq!(parse_value("VIS", float_text("VIS")), ConfigValue::String("VIS".to_string()));
}

// ---------------------------------------------------------------
// Round-trip: load config from TOML string -> save -> re-parse
// ---------------------------------------------------------------

#[test]
fn test_load_nested_config_from_toml_string() {
    let (session, devices) = load_config(example_toml_str());

    // Session should be loaded via the "experiment" alias
    assert!(session.is_some());
    let info = session.unwrap();
    assert_eq!(info.name, "John Doe");
    assert_eq!(info.email, "test@canterbury.ac.nz");
    assert_eq!(info.session_name, "Test Experiment");

    // Should have two devices
    assert!(devices.get("Test_DAQ").is_some());
    assert!(devices.get("iHR550").is_some());

    // Test_DAQ has flat config
    let daq = table_of(devices.get("Test_DAQ").unwrap());
    assert_eq!(daq.get("gate_time"), Some(&ConfigValue::Integer(1000)));
    assert_eq!(daq.get("averages"), Some(&ConfigValue::Integer(40)));

    // iHR550 has nested tables for slits and mirrors
    let ihr = table_of(devices.get("iHR550").unwrap());
    assert!(matches!(ihr.get("slits"), Some(ConfigValue::Table(_))));
    assert!(matches!(ihr.get("mirrors"), Some(ConfigValue::Table(_))));
    assert_eq!(ihr.get("forced_initialisation"), Some(&ConfigValue::Boolean(true)));
}

#[test]
fn test_state_tab_load_and_flatten_nested_config() {
    let mut tab = loaded_tab();

    // Select the iHR550 device
    let ihr_idx = tab
        .device_names
        .iter()
        .position(|n| n == "iHR550")
        .expect("iHR550 should be in device list");
    tab.device_list_state = Some(ihr_idx);
    tab.refresh_device_field_lists();

    // Nested fields should be flattened with dot notation
    assert!(
        tab.device_field_names.contains(&"slits.Entrance_Front".to_string()),
        "Expected 'slits.Entrance_Front' in field names, got: {:?}",
        tab.device_field_names
    );
    assert!(
        tab.device_field_names.contains(&"mirrors.Entrance".to_string()),
        "Expected 'mirrors.Entrance' in field names, got: {:?}",
        tab.device_field_names
    );
    // Top-level fields should still be present
    assert!(tab.device_field_names.contains(&"grating".to_string()));
    assert!(tab.device_field_names.contains(&"step_size".to_string()));

    // Should not have raw "slits" or "mirrors" as a field (they are tables, not leaves)
    assert!(
        !tab.device_field_names.contains(&"slits".to_string()),
        "Nested table 'slits' should be flattened, not shown as a raw field"
    );
    assert!(
        !tab.device_field_names.contains(&"mirrors".to_string()),
        "Nested table 'mirrors' should be flattened, not shown as a raw field"
    );
}

#[test]
fn test_save_config_round_trip_preserves_nested_tables() {
    let tab = loaded_tab();

    let saved_contents = tab.config_file_text();

    // The saved file must contain proper nested TOML sections
    assert!(
        saved_contents.contains("[device.iHR550.slits]"),
        "Saved config should contain [device.iHR550.slits] section.\nGot:\n{}",
        saved_contents
    );
    assert!(
        saved_contents.contains("[device.iHR550.mirrors]"),
        "Saved config should contain [device.iHR550.mirrors] section.\nGot:\n{}",
        saved_contents
    );

    // The saved file must NOT contain 'slits = {}' or 'mirrors = {}'
    assert!(
        !saved_contents.contains("slits = {}"),
        "Saved config must not flatten nested tables to empty inline tables.\nGot:\n{}",
        saved_contents
    );

    // Re-parse the saved TOML to verify it's valid and contains nested data
    let (_, reparsed) = load_config(&saved_contents);

    let ihr = table_of(reparsed.get("iHR550").expect("iHR550"));
    let slits = table_of(ihr.get("slits").expect("iHR550.slits should be a Table after round-trip"));
    assert_eq!(slits.get("Entrance_Front"), Some(&float(0.5)));
    assert_eq!(slits.get("Exit_Side"), Some(&float(0.5)));

    let mirrors =
        table_of(ihr.get("mirrors").expect("iHR550.mirrors should be a Table after round-trip"));
    assert_eq!(mirrors.get("Entrance"), Some(&ConfigValue::String("front".to_string())));
    assert_eq!(mirrors.get("Exit"), Some(&ConfigValue::String("side".to_string())));

    // Flat device should also survive
    let daq = table_of(reparsed.get("Test_DAQ").expect("Test_DAQ"));
    assert_eq!(daq.get("gate_time"), Some(&ConfigValue::Integer(1000)));
    assert_eq!(daq.get("averages"), Some(&ConfigValue::Integer(40)));
}

#[test]
fn test_edit_nested_field_and_round_trip() {
    let mut tab = loaded_tab();

    // Edit slits.Entrance_Front on iHR550 via set_nested_value
    let idx = tab.device_names.iter().position(|n| n == "iHR550").unwrap();
    if let ConfigValue::Table(config) = &mut tab.device_configs.entries[idx].1 {
        set_nested_value(config, "slits.Entrance_Front", float(2.0));
    }

    // Verify the nested table was updated correctly
    let ihr = device_config(&tab, "iHR550");
    let slits = table_of(ihr.get("slits").expect("slits should still be a Table after editing"));
    assert_eq!(
        slits.get("Entrance_Front"),
        Some(&float(2.0)),
        "Entrance_Front should be updated to 2.0"
    );
    // Other values should be untouched
    assert_eq!(slits.get("Exit_Front"), Some(&float(0.5)));

    // Save and re-parse to confirm the edit persists through round-trip
    let saved = tab.config_file_text();
    let doc: toml::Value = toml::from_str(&saved).expect("Edited config should be valid TOML");
    let entrance = &doc["device"]["iHR550"]["slits"]["Entrance_Front"];
    // After round-trip, 2.0 should remain a float thanks to the ".0" suffix in serialization
    assert!(entrance.is_float());
    assert_eq!(entrance.as_float(), Some(2.0));
}
