//! Sensor configuration and the raw readings taken from a sensor's files.

use vstd::prelude::*;

use crate::paths::{joined, join_path};
use crate::text::{parse_i32, parsed_i32, trim, trimmed};

verus! {

/// Display name of the coolant flow sensor.
pub const FLOW_SPEED_NAME: &'static str = "Flow speed [dL/h]";

/// Display name of the coolant temperature sensor.
pub const TEMP_SENSOR_NAME: &'static str = "Sensor 1";

/// Display name of the pump fan sensor.
pub const PUMP_SPEED_NAME: &'static str = "Pump Fan";

/// Name of the kernel module that drives the cooling controller.
pub const QUADRO_MODULE: &'static str = "quadro";

/// Name of the kernel module that drives the mainboard sensors.
pub const MAINBOARD_MODULE: &'static str = "nct6687";

/// The kind of quantity a sensor measures.
#[derive(Debug, Clone, Copy, PartialEq, Eq, Structural)]
pub enum SensorType {
    Temperature,
    InputVoltage,
    FanSpeed,
    Pwm,
    FlowSpeed,
    Unknown,
}

/// A configured sensor: its display name and kind.
#[derive(Debug, Clone)]
pub struct SensorConfig {
    pub name: String,
    pub s_type: SensorType,
}

/// A reading taken from a sensor, in the units its driver reports.
#[derive(Debug, Clone)]
pub enum ReadResult {
    Temperature(String, i32),
    InputVoltage(String, i32),
    FanSpeed(String, i32),
    Pwm(String, i32, i32),
    FlowSpeed(String, i32, i32),
    NoReading,
}

/// The raw contents of a sensor's files, as read, with the sensor's name and
/// kind.
#[derive(Debug, Clone)]
pub struct SensorReadResultWrapper {
    pub _values: Vec<String>,
    pub name: String,
    pub _t: SensorType,
}

/// The suffixes of the files that hold the readings of a sensor of kind `t`,
/// in the order in which they are read.
pub open spec fn related_suffixes(t: SensorType) -> Seq<Seq<char>> {
    match t {
        SensorType::FlowSpeed => seq!["_input"@, "_pulses"@],
        SensorType::FanSpeed => seq!["_input"@],
        SensorType::Pwm => seq!["_input"@],
        SensorType::Temperature => seq!["_input"@, "_offset"@],
        _ => seq![],
    }
}

/// The contents of a sensor's configuration.
pub struct SensorConfigView {
    pub name: Seq<char>,
    pub s_type: SensorType,
}

impl View for SensorConfig {
    type V = SensorConfigView;

    open spec fn view(&self) -> SensorConfigView {
        SensorConfigView { name: self.name@, s_type: self.s_type }
    }
}

impl SensorConfig {
    /// A sensor named `name` of kind `t`.
    pub fn new(name: &str, t: SensorType) -> (r: SensorConfig)
        ensures
            r.name@ == name@,
            r.s_type == t,
    {
        SensorConfig { name: name.to_owned(), s_type: t }
    }

    /// The files that hold this sensor's readings: for the file prefix
    /// `mod_file` under `base_path`, one path per suffix of
    /// [`related_suffixes`].
    pub fn related_files(&self, base_path: &str, mod_file: &str) -> (r: Vec<String>)
        ensures
            r@.len() == related_suffixes(self.s_type).len(),
            forall|i: int|
                0 <= i < r@.len() ==> #[trigger] r@[i]@ == joined(
                    base_path@,
                    mod_file@ + related_suffixes(self.s_type)[i],
                ),
    {
        proof {
            reveal_strlit("_input");
            reveal_strlit("_pulses");
            reveal_strlit("_offset");
        }
        let mut related_files: Vec<String> = Vec::new();
        match self.s_type {
            SensorType::FlowSpeed => {
                related_files.push(Self::suffixed(base_path, mod_file, "_input"));
                related_files.push(Self::suffixed(base_path, mod_file, "_pulses"));
            },
            SensorType::FanSpeed => {
                related_files.push(Self::suffixed(base_path, mod_file, "_input"));
            },
            SensorType::Pwm => {
                related_files.push(Self::suffixed(base_path, mod_file, "_input"));
            },
            SensorType::Temperature => {
                related_files.push(Self::suffixed(base_path, mod_file, "_input"));
                related_files.push(Self::suffixed(base_path, mod_file, "_offset"));
            },
            _ => {},
        }
        related_files
    }

    fn suffixed(base_path: &str, mod_file: &str, suffix: &str) -> (r: String)
        ensures
            r@ == joined(base_path@, mod_file@ + suffix@),
    {
        let mut file = mod_file.to_owned();
        file.append(suffix);
        join_path(base_path, file.as_str())
    }
}

impl SensorReadResultWrapper {
    /// Whether [`Self::format`] can read the wrapper: every file content that
    /// the sensor's kind needs is present and, trimmed, is a decimal `i32`.
    pub open spec fn formattable(&self) -> bool {
        match self._t {
            SensorType::Temperature => {
                &&& self._values@.len() >= 1
                &&& parsed_i32(trimmed(self._values@[0]@)) is Some
            },
            SensorType::FlowSpeed => {
                &&& self._values@.len() >= 2
                &&& parsed_i32(trimmed(self._values@[0]@)) is Some
                &&& parsed_i32(trimmed(self._values@[1]@)) is Some
            },
            _ => true,
        }
    }

    /// The reading that [`Self::format`] gives for a formattable wrapper.
    pub open spec fn formatted(&self) -> ReadResult {
        match self._t {
            SensorType::Temperature => ReadResult::Temperature(
                self.name,
                parsed_i32(trimmed(self._values@[0]@))->0,
            ),
            SensorType::FlowSpeed => ReadResult::FlowSpeed(
                self.name,
                parsed_i32(trimmed(self._values@[0]@))->0,
                parsed_i32(trimmed(self._values@[1]@))->0,
            ),
            _ => ReadResult::NoReading,
        }
    }

    /// Wraps the contents `bytes` read from the sensor `name` of kind `t`.
    pub fn new(name: &str, bytes: Vec<String>, t: SensorType) -> (r: SensorReadResultWrapper)
        ensures
            r.name@ == name@,
            r._values@ == bytes@,
            r._t == t,
    {
        SensorReadResultWrapper { _values: bytes, name: name.to_owned(), _t: t }
    }

    /// Decides [`Self::formattable`].
    pub fn can_format(&self) -> (b: bool)
        ensures
            b == self.formattable(),
    {
        match self._t {
            SensorType::Temperature => {
                self._values.len() >= 1 && parse_i32(trim(self._values[0].as_str()).as_str()).is_some()
            },
            SensorType::FlowSpeed => {
                self._values.len() >= 2 && parse_i32(trim(self._values[0].as_str()).as_str()).is_some()
                    && parse_i32(trim(self._values[1].as_str()).as_str()).is_some()
            },
            _ => true,
        }
    }

    /// Reads the wrapper as a reading: a temperature from the first content,
    /// a flow speed from the first two (the rate, then the pulse count),
    /// each trimmed and read as a decimal `i32`; no reading for other kinds.
    pub fn format(&self) -> (r: ReadResult)
        requires
            self.formattable(),
        ensures
            r == self.formatted(),
    {
        match self._t {
            SensorType::Temperature => {
                let int_value = parse_i32(trim(self._values[0].as_str()).as_str()).unwrap();
                ReadResult::Temperature(self.name.clone(), int_value)
            },
            SensorType::FlowSpeed => {
                let in_value = parse_i32(trim(self._values[0].as_str()).as_str()).unwrap();
                let pulse_value = parse_i32(trim(self._values[1].as_str()).as_str()).unwrap();
                ReadResult::FlowSpeed(self.name.clone(), in_value, pulse_value)
            },
            _ => ReadResult::NoReading,
        }
    }
}

} // verus!
