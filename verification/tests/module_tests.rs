use quadro::history::History;
use quadro::processing::{Value, ValueType};
use quadro::sensor_module::{export_histories, restore_cache, Config, Module};
use quadro::sensors::{SensorConfig, SensorType};
use quadro::ui::ComponentType;

fn value(key: u32, source: &str) -> Value {
    Value { key, source: source.to_string(), unit: "Celsius".to_string(), value_type: ValueType::Temperature }
}

#[test]
fn default_config_has_the_cooling_and_board_modules() {
    let c = Config::default();
    assert_eq!(c.modules.len(), 2);
    assert_eq!(c.modules[0].module_name, "quadro");
    let names: Vec<&str> = c.modules[0].sensors.iter().map(|s| s.name.as_str()).collect();
    assert_eq!(names, vec!["Flow speed [dL/h]", "Sensor 1"]);
    assert_eq!(c.modules[0].sensors[0].s_type, SensorType::FlowSpeed);
    assert_eq!(c.modules[1].module_name, "nct6687");
    assert_eq!(c.modules[1].sensors[0].name, "Pump Fan");
    assert_eq!(c.modules[1].sensors[0].s_type, SensorType::FanSpeed);
    assert!(c.modules[0].p.is_empty());
    assert_eq!(ComponentType::Chart, ComponentType::Chart);
}

#[test]
fn recording_keeps_one_state_per_sensor() {
    let mut m = Module::new("quadro", vec![SensorConfig::new("Sensor 1", SensorType::Temperature)]);
    let name = "Sensor 1".to_string();
    assert!(m.can_record(&name));
    m.record(name.clone(), value(1, "Sensor 1"), 0);
    m.record(name.clone(), value(2, "Sensor 1"), 0);
    m.record("Other".to_string(), value(3, "Other"), 0);
    assert_eq!(m.p.len(), 2);
    assert_eq!(m.p[0].0, "Sensor 1");
    assert_eq!(m.p[0].1.export("x").unwrap().values, vec![1, 2]);
    let exported = m.export_hist();
    assert_eq!(exported.len(), 2);
    assert_eq!(exported[1].0, "Other");
}

#[test]
fn loading_gives_configured_sensors_their_histories() {
    let mut m = Module::new(
        "quadro",
        vec![
            SensorConfig::new("Sensor 1", SensorType::Temperature),
            SensorConfig::new("Flow speed [dL/h]", SensorType::FlowSpeed),
        ],
    );
    m.record("Stale".to_string(), value(9, "Stale"), 0);
    let mut h = History::new(8, "Sensor 1", "Celsius", ValueType::Temperature);
    h.update(value(5, "Sensor 1"));
    let unknown = History::new(8, "Unknown", "x", ValueType::Default);
    m.load_processing(&vec![("Unknown".to_string(), unknown), ("Sensor 1".to_string(), h)]);
    assert_eq!(m.p.len(), 1);
    assert_eq!(m.p[0].0, "Sensor 1");
    assert!(m.p[0].1.last.is_none());
    assert!(m.p[0].1.export("n").is_none());
    assert_eq!(m.export_hist()[0].1.values, vec![5]);
}

#[test]
fn restoring_a_saved_config_gives_back_its_histories() {
    let mut c = Config::default();
    c.modules[0].record("Sensor 1".to_string(), value(4, "Sensor 1"), 0);
    c.modules[0].record("Sensor 1".to_string(), value(6, "Sensor 1"), 0);
    c.modules[0].record("Not configured".to_string(), value(1, "Not configured"), 0);
    c.modules[1].record("Pump Fan".to_string(), value(2, "Pump Fan"), 0);
    let saved = export_histories(&c);
    assert_eq!(saved.len(), 2);
    assert_eq!(saved[0].0, "quadro");
    let mut fresh = Config::default();
    restore_cache(&mut fresh, &saved);
    assert_eq!(fresh.modules[0].p.len(), 1);
    assert_eq!(fresh.modules[0].p[0].0, "Sensor 1");
    assert_eq!(fresh.modules[0].export_hist()[0].1.values, vec![4, 6]);
    assert_eq!(fresh.modules[1].export_hist()[0].1.values, vec![2]);
}

#[test]
fn restoring_skips_modules_without_cache() {
    let mut c = Config::default();
    c.modules[1].record("Pump Fan".to_string(), value(2, "Pump Fan"), 0);
    restore_cache(&mut c, &vec![]);
    assert_eq!(c.modules[1].p.len(), 1);
}

#[test]
fn a_module_exports_the_sensors_that_hold_a_measurement() {
    let mut m = Module::new("quadro", vec![SensorConfig::new("Sensor 1", SensorType::Temperature)]);
    assert!(m.is_exportable());
    assert!(m.exports().is_empty());
    m.record("Sensor 1".to_string(), value(3, "Sensor 1"), 0);
    m.record("Other".to_string(), value(7, "Other"), 0);
    m.record("Sensor 1".to_string(), value(5, "Sensor 1"), 0);
    assert!(m.is_exportable());
    let e = m.exports();
    assert_eq!(e.len(), 2);
    assert_eq!((e[0].name.as_str(), e[0].module.as_str(), e[0].current), ("Sensor 1", "Sensor 1", 5));
    assert_eq!(e[0].values, vec![3, 5]);
    assert_eq!(e[0].unit, "Celsius");
    assert_eq!((e[1].name.as_str(), e[1].current), ("Other", 7));
    let mut h = History::new(8, "Sensor 1", "Celsius", ValueType::Temperature);
    h.update(value(1, "Sensor 1"));
    m.load_processing(&vec![("Sensor 1".to_string(), h)]);
    assert!(m.is_exportable());
    assert!(m.exports().is_empty());
}

#[test]
fn a_module_with_a_measurement_but_no_history_is_not_exportable() {
    let mut m = Module::new("quadro", vec![]);
    let mut p = quadro::processing::Processing::new();
    p.last = Some(value(1, "Sensor 1"));
    m.p.push(("Sensor 1".to_string(), p));
    assert!(!m.is_exportable());
}

#[test]
fn a_duplicate_keeps_the_processing_state() {
    let mut c = Config::default();
    c.verbose = true;
    c.modules[0].record("Sensor 1".to_string(), value(4, "Sensor 1"), 0);
    let d = c.duplicate();
    assert!(d.verbose);
    assert_eq!(d.modules.len(), 2);
    assert_eq!(d.modules[0].module_name, "quadro");
    assert_eq!(d.modules[0].sensors.len(), 2);
    assert_eq!(d.modules[0].sensors[1].name, "Sensor 1");
    assert_eq!(d.modules[0].p.len(), 1);
    assert_eq!(d.modules[0].p[0].1.last.as_ref().unwrap().key, 4);
    assert_eq!(d.modules[0].exports()[0].values, vec![4]);
    let m = c.modules[0].duplicate();
    assert_eq!(m.p[0].1.hist.as_ref().unwrap().values, vec![4]);
    assert!(!Config::default().verbose);
}

#[test]
fn exporting_after_loading_gives_back_the_sensors_histories() {
    let mut m = Module::new(
        "quadro",
        vec![
            SensorConfig::new("Sensor 1", SensorType::Temperature),
            SensorConfig::new("Flow speed [dL/h]", SensorType::FlowSpeed),
        ],
    );
    let mut h = History::new(8, "Sensor 1", "Celsius", ValueType::Temperature);
    h.update(value(5, "Sensor 1"));
    h.update(value(6, "Sensor 1"));
    let other = History::new(8, "Unknown", "x", ValueType::Default);
    m.load_processing(&vec![("Unknown".to_string(), other), ("Sensor 1".to_string(), h)]);
    let out = m.export_hist();
    assert_eq!(out.len(), 1);
    assert_eq!(out[0].0, "Sensor 1");
    assert_eq!(out[0].1.values, vec![5, 6]);
    assert_eq!(out[0].1.size(), 8);
    assert_eq!(out[0].1.source, "Sensor 1");
}

#[test]
fn a_module_accepts_every_measurement() {
    let mut m = Module::new("quadro", vec![SensorConfig::new("Sensor 1", SensorType::Temperature)]);
    let name = "Sensor 1".to_string();
    for k in 0..1500u32 {
        assert!(m.can_record(&name));
        m.record(name.clone(), value(k, "Sensor 1"), 0);
    }
    assert_eq!(m.p[0].1.hist.as_ref().unwrap().values.len(), 512);
}
