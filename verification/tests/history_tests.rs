use quadro::history::History;
use quadro::processing::{Processing, Value, ValueType};
use quadro::sensors::ReadResult;

fn value(key: u32, source: &str, vt: ValueType) -> Value {
    Value { key, source: source.to_string(), unit: "u".to_string(), value_type: vt }
}

#[test]
fn history_fills_then_merges() {
    let mut h = History::new(3, "s", "u", ValueType::Temperature);
    for k in [1, 2, 3] {
        assert!(h.accepts_update());
        h.update(value(k, "s", ValueType::Temperature));
    }
    assert_eq!(h.values, vec![1, 2, 3]);
    h.update(value(4, "s", ValueType::Temperature));
    assert_eq!(h.values, vec![2, 3, 4]);
    h.update(value(5, "s", ValueType::Temperature));
    assert_eq!(h.values, vec![2, 4, 5]);
    assert_eq!(h.update_ptr(), 0);
    assert!(h.accepts_update());
    h.update(value(6, "s", ValueType::Temperature));
    assert_eq!(h.values, vec![4, 5, 6]);
    assert_eq!(h.update_ptr(), 1);
    assert!(h.accepts_update());
}

#[test]
fn history_merge_keeps_the_larger_key() {
    let mut h = History::new(2, "s", "u", ValueType::FanSpeed);
    h.update(value(9, "s", ValueType::FanSpeed));
    h.update(value(1, "s", ValueType::FanSpeed));
    assert!(h.accepts_update());
    h.update(value(5, "s", ValueType::FanSpeed));
    assert_eq!(h.values, vec![9, 5]);
    assert_eq!(h.update_ptr(), 0);
    h.update(value(3, "s", ValueType::FanSpeed));
    assert_eq!(h.values, vec![9, 3]);
}

#[test]
fn empty_history_refuses_updates() {
    let h = History::new(0, "s", "u", ValueType::Default);
    assert!(!h.accepts_update());
    let one = History::new(1, "s", "u", ValueType::Default);
    assert!(!one.accepts_update());
}

#[test]
fn values_follow_the_reading_kind() {
    let v = Value::new(ReadResult::FlowSpeed("Flow".to_string(), 10, 2), 99);
    assert_eq!((v.key, v.source.as_str(), v.unit.as_str()), (99, "Flow", "dL/h"));
    assert_eq!(v.value_type, ValueType::FlowSpeed);
    let t = Value::new(ReadResult::Temperature("T".to_string(), 45000), 3);
    assert_eq!((t.unit.as_str(), t.value_type), ("Celsius", ValueType::Temperature));
    let f = Value::new(ReadResult::FanSpeed("F".to_string(), 900), 3);
    assert_eq!((f.unit.as_str(), f.value_type), ("Percent", ValueType::FanSpeed));
    let p = Value::new(ReadResult::Pwm("P".to_string(), 1, 2), 3);
    assert_eq!((p.unit.as_str(), p.value_type), ("PWM", ValueType::Pwm));
    let d = Value::new(ReadResult::InputVoltage("V".to_string(), 5), 3);
    assert_eq!((d.source.as_str(), d.unit.as_str(), d.value_type), ("", "", ValueType::Default));
    let n = Value::new(ReadResult::NoReading, 0);
    assert_eq!(n.value_type, ValueType::Default);
}

#[test]
fn processing_keeps_last_value_and_history() {
    let mut p = Processing::new();
    assert!(p.export("Sensor 1").is_none());
    p.update(value(7, "Sensor 1", ValueType::Temperature), 0);
    p.update(value(8, "Sensor 1", ValueType::Temperature), 0);
    let e = p.export("Sensor 1").unwrap();
    assert_eq!(e.name, "Sensor 1");
    assert_eq!(e.module, "Sensor 1");
    assert_eq!(e.current, 8);
    assert_eq!(e.unit, "u");
    assert_eq!(e.values, vec![7, 8]);
}

#[test]
fn flow_from_the_temperature_sensor_becomes_a_ratio() {
    let mut p = Processing::new();
    p.update(value(7, "Sensor 1", ValueType::FlowSpeed), 42);
    let last = p.last.as_ref().unwrap();
    assert_eq!(last.key, 42);
    assert_eq!(last.source, "Temp / Flow");
    assert_eq!(last.unit, "Temp h / dL");
    assert_eq!(last.value_type, ValueType::Calculated);
    assert_eq!(p.export("x").unwrap().values, vec![42]);
    let mut q = Processing::new();
    q.update(value(7, "Flow speed [dL/h]", ValueType::FlowSpeed), 42);
    assert_eq!(q.last.as_ref().unwrap().key, 7);
}

#[test]
fn processing_starts_from_a_restored_history() {
    let mut h = History::new(4, "Sensor 1", "Celsius", ValueType::Temperature);
    h.update(value(1, "Sensor 1", ValueType::Temperature));
    let mut p = Processing::new();
    p.init(&h);
    assert!(p.last.is_none());
    assert!(p.accepts_update());
    p.update(value(2, "Sensor 1", ValueType::Temperature), 0);
    assert_eq!(p.export("n").unwrap().values, vec![1, 2]);
}

#[test]
fn a_started_history_holds_512_bins() {
    let mut p = Processing::new();
    for k in 0..2000u32 {
        assert!(p.accepts_update());
        p.update(value(k, "Sensor 1", ValueType::Temperature), 0);
    }
    let h = p.hist.as_ref().unwrap();
    assert_eq!(h.size(), 512);
    assert_eq!(h.values.len(), 512);
    assert_eq!(h.values.last(), Some(&1999));
    assert!(h.update_ptr() < 511);
    assert_eq!(quadro::processing::MAX_HIST_SIZE, 512);
}

#[test]
fn a_restored_history_at_its_last_position_merges_from_the_front() {
    let mut h = History::from_parts(
        vec![1, 2, 3],
        "s".to_string(),
        "u".to_string(),
        ValueType::Temperature,
        3,
        2,
    );
    assert!(h.accepts_update());
    h.update(value(4, "s", ValueType::Temperature));
    assert_eq!(h.values, vec![2, 3, 4]);
    assert_eq!(h.update_ptr(), 1);
    let bad = History::from_parts(vec![1], "s".to_string(), "u".to_string(), ValueType::Default, 3, 3);
    assert!(!bad.accepts_update());
}
