use quadro::labels::{label_file_name, match_label};
use quadro::plugin::ReadResult as RawReading;
use quadro::sensors::{ReadResult, SensorConfig, SensorReadResultWrapper, SensorType};

#[test]
fn temperature_is_read_from_the_first_file() {
    let w = SensorReadResultWrapper::new(
        "Sensor 1",
        vec![" 45000\n".to_string(), "0\n".to_string()],
        SensorType::Temperature,
    );
    assert!(w.can_format());
    match w.format() {
        ReadResult::Temperature(name, v) => {
            assert_eq!(name, "Sensor 1");
            assert_eq!(v, 45000);
        }
        other => panic!("unexpected {:?}", other),
    }
}

#[test]
fn flow_speed_is_read_from_rate_and_pulses() {
    let w = SensorReadResultWrapper::new(
        "Flow speed [dL/h]",
        vec!["1200\n".to_string(), "-4\n".to_string()],
        SensorType::FlowSpeed,
    );
    assert!(w.can_format());
    match w.format() {
        ReadResult::FlowSpeed(name, rate, pulses) => {
            assert_eq!(name, "Flow speed [dL/h]");
            assert_eq!(rate, 1200);
            assert_eq!(pulses, -4);
        }
        other => panic!("unexpected {:?}", other),
    }
}

#[test]
fn other_kinds_give_no_reading() {
    let w = SensorReadResultWrapper::new("Pump Fan", vec!["900".to_string()], SensorType::FanSpeed);
    assert!(w.can_format());
    assert!(matches!(w.format(), ReadResult::NoReading));
}

#[test]
fn unreadable_contents_cannot_be_formatted() {
    let not_a_number =
        SensorReadResultWrapper::new("t", vec!["warm".to_string()], SensorType::Temperature);
    assert!(!not_a_number.can_format());
    let missing_pulses =
        SensorReadResultWrapper::new("f", vec!["12".to_string()], SensorType::FlowSpeed);
    assert!(!missing_pulses.can_format());
    let nothing = SensorReadResultWrapper::new("t", vec![], SensorType::Temperature);
    assert!(!nothing.can_format());
}

#[test]
fn related_files_follow_the_sensor_kind() {
    let flow = SensorConfig::new("Flow speed [dL/h]", SensorType::FlowSpeed);
    assert_eq!(
        flow.related_files("/sys/class/hwmon/hwmon6", "fan5"),
        vec!["/sys/class/hwmon/hwmon6/fan5_input", "/sys/class/hwmon/hwmon6/fan5_pulses"]
    );
    let temp = SensorConfig::new("Sensor 1", SensorType::Temperature);
    assert_eq!(
        temp.related_files("/sys/class/hwmon/hwmon6/", "temp1"),
        vec!["/sys/class/hwmon/hwmon6/temp1_input", "/sys/class/hwmon/hwmon6/temp1_offset"]
    );
    let fan = SensorConfig::new("Pump Fan", SensorType::FanSpeed);
    assert_eq!(fan.related_files("/d", "fan2"), vec!["/d/fan2_input"]);
    let pwm = SensorConfig::new("p", SensorType::Pwm);
    assert_eq!(pwm.related_files("/d", "pwm1"), vec!["/d/pwm1_input"]);
    let volt = SensorConfig::new("v", SensorType::InputVoltage);
    assert!(volt.related_files("/d", "in0").is_empty());
}

#[test]
fn label_files_name_their_sensor() {
    let cfg = SensorConfig::new("Flow speed [dL/h]", SensorType::FlowSpeed);
    assert_eq!(
        match_label(&cfg, "/sys/class/hwmon/hwmon6/fan5_label", "Flow speed [dL/h]\n"),
        Some("fan5".to_string())
    );
    assert_eq!(match_label(&cfg, "/sys/class/hwmon/hwmon6/fan5_label", "Coolant\n"), None);
    assert_eq!(match_label(&cfg, "fan5_label", "Flow speed [dL/h]"), None);
    assert_eq!(
        match_label(&cfg, "/sys/class/hwmon/hwmon6/temp12_LABEL", "Flow speed [dL/h]"),
        Some("temp12".to_string())
    );
}

#[test]
fn input_files_have_label_files() {
    assert_eq!(label_file_name("fan5_input"), Some("fan5_label".to_string()));
    assert_eq!(label_file_name("temp1_INPUT"), Some("temp1_label".to_string()));
    assert_eq!(label_file_name("x_input"), None);
    assert_eq!(label_file_name("fan5_label"), None);
}

#[test]
fn raw_readings_show_text_or_hex() {
    let text = RawReading::new("Flow speed [dL/h]", b" 1234\n".to_vec());
    assert_eq!(text.name, "Flow speed [dL/h]");
    assert_eq!(text.get_value(), "1234");
    let bytes = RawReading::new("b", vec![0xff, 0x0a, 0x00, 0x80]);
    assert_eq!(bytes.get_value(), format!("{:x?}", vec![0xffu8, 0x0a, 0x00, 0x80]));
    assert_eq!(bytes.get_value(), "[ff, a, 0, 80]");
    let empty = RawReading::new("e", vec![]);
    assert_eq!(empty.get_value(), "");
}

#[test]
fn label_file_follows_the_sensor_prefix() {
    assert_eq!(label_file_name("fan2_input"), Some("fan2_label".to_string()));
    assert_eq!(label_file_name("in0_input"), Some("in0_label".to_string()));
    assert_eq!(label_file_name("fan2_input2"), None);
}

#[test]
fn events_show_the_reading() {
    let e = quadro::plugin::SensorEvent::from(RawReading::new("Pump Fan", b"905\n".to_vec()));
    assert_eq!(e.sensor_name, "Pump Fan");
    assert_eq!(e.sensor_value, "905");
}
