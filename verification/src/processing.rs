//! Measurement values and the processing state of one sensor.

use vstd::prelude::*;

use crate::history::{History, HistoryView};
use crate::sensors::{ReadResult, TEMP_SENSOR_NAME};

verus! {

/// Capacity of the history that a sensor's processing starts: its
/// statistics are kept as this many bins over all measurements.
pub const MAX_HIST_SIZE: usize = 512;

/// The kind of a measurement value.
#[derive(Debug, Clone, Copy, PartialEq, Eq, Structural)]
pub enum ValueType {
    FlowSpeed,
    Temperature,
    FanSpeed,
    Pwm,
    Calculated,
    Default,
}

/// A measurement: the order key of the measured quantity, the sensor it
/// comes from, its unit and kind.
#[derive(Debug)]
pub struct Value {
    pub key: u32,
    pub source: String,
    pub unit: String,
    pub value_type: ValueType,
}

/// The contents of a measurement.
#[verifier::ext_equal]
pub struct ValueView {
    pub key: u32,
    pub source: Seq<char>,
    pub unit: Seq<char>,
    pub value_type: ValueType,
}

impl View for Value {
    type V = ValueView;

    open spec fn view(&self) -> ValueView {
        ValueView {
            key: self.key,
            source: self.source@,
            unit: self.unit@,
            value_type: self.value_type,
        }
    }
}

/// The measurement that a reading gives, where `key` is the order key of the
/// quantity it measures: the reading's sensor as source, and a unit and kind
/// by the reading's variant (flow speed in dL/h, temperature in Celsius, fan
/// speed in percent, PWM); an empty source and unit, of the default kind,
/// for other readings.
pub open spec fn value_of(result: ReadResult, key: u32) -> ValueView {
    match result {
        ReadResult::FlowSpeed(name, _, _) => ValueView {
            key,
            source: name@,
            unit: "dL/h"@,
            value_type: ValueType::FlowSpeed,
        },
        ReadResult::Temperature(name, _) => ValueView {
            key,
            source: name@,
            unit: "Celsius"@,
            value_type: ValueType::Temperature,
        },
        ReadResult::FanSpeed(name, _) => ValueView {
            key,
            source: name@,
            unit: "Percent"@,
            value_type: ValueType::FanSpeed,
        },
        ReadResult::Pwm(name, _, _) => ValueView {
            key,
            source: name@,
            unit: "PWM"@,
            value_type: ValueType::Pwm,
        },
        _ => ValueView {
            key,
            source: Seq::empty(),
            unit: Seq::empty(),
            value_type: ValueType::Default,
        },
    }
}

impl Value {
    /// The measurement of `result` whose quantity has the order key `key`
    /// (see [`value_of`]).
    pub fn new(result: ReadResult, key: u32) -> (r: Value)
        ensures
            r@ == value_of(result, key),
    {
        match result {
            ReadResult::FlowSpeed(name, _, _) => Value {
                key,
                source: name,
                unit: "dL/h".to_owned(),
                value_type: ValueType::FlowSpeed,
            },
            ReadResult::Temperature(name, _) => Value {
                key,
                source: name,
                unit: "Celsius".to_owned(),
                value_type: ValueType::Temperature,
            },
            ReadResult::FanSpeed(name, _) => Value {
                key,
                source: name,
                unit: "Percent".to_owned(),
                value_type: ValueType::FanSpeed,
            },
            ReadResult::Pwm(name, _, _) => Value {
                key,
                source: name,
                unit: "PWM".to_owned(),
                value_type: ValueType::Pwm,
            },
            _ => {
                let r = Value {
                    key,
                    source: String::new(),
                    unit: String::new(),
                    value_type: ValueType::Default,
                };
                assert(r@ =~= value_of(result, key));
                r
            },
        }
    }

    /// A copy of this measurement.
    pub fn duplicate(&self) -> (r: Value)
        ensures
            r@ == self@,
    {
        Value {
            key: self.key,
            source: self.source.clone(),
            unit: self.unit.clone(),
            value_type: self.value_type,
        }
    }
}

/// The measurement that processing keeps for `v`: a flow speed whose source
/// is the temperature sensor becomes the calculated ratio of temperature to
/// flow, with the order key `ratio_key`; any other measurement is kept as
/// it is.
pub open spec fn processed(v: ValueView, ratio_key: u32) -> ValueView {
    if v.value_type == ValueType::FlowSpeed && v.source == TEMP_SENSOR_NAME@ {
        ValueView {
            key: ratio_key,
            source: "Temp / Flow"@,
            unit: "Temp h / dL"@,
            value_type: ValueType::Calculated,
        }
    } else {
        v
    }
}

/// The history `hist` after `v` was added to it; where there is none yet, a
/// history of capacity [`MAX_HIST_SIZE`] for `v`'s source, unit and kind is
/// started first.
pub open spec fn history_with(hist: Option<HistoryView>, v: ValueView) -> HistoryView {
    let h = match hist {
        Some(h) => h,
        None => HistoryView {
            values: Seq::empty(),
            source: v.source,
            unit: v.unit,
            value_type: v.value_type,
            size: MAX_HIST_SIZE as nat,
            update_ptr: 0,
        },
    };
    h.updated(v.key)
}

/// The state of a sensor's processing.
#[verifier::ext_equal]
pub struct ProcessingView {
    pub last: Option<ValueView>,
    pub hist: Option<HistoryView>,
}

impl ProcessingView {
    /// Whether an update can be processed: a history, where there is one,
    /// accepts the next measurement.
    pub open spec fn accepts_update(self) -> bool {
        self.hist matches Some(h) ==> h.accepts_update()
    }

    /// The state after the measurement `v` was processed, `ratio_key` being
    /// the order key of the temperature to flow ratio that `v` gives.
    pub open spec fn updated(self, v: ValueView, ratio_key: u32) -> ProcessingView {
        let last = processed(v, ratio_key);
        ProcessingView { last: Some(last), hist: Some(history_with(self.hist, last)) }
    }
}

/// The processing state of one sensor: its last measurement and its history.
#[derive(Debug)]
pub struct Processing {
    pub last: Option<Value>,
    pub hist: Option<History>,
}

/// A sensor's export for display: its name, the order key of its last
/// measurement and that measurement's unit, the keys of its history, and
/// the module it is shown under.
#[derive(Debug)]
pub struct SensorExport {
    pub name: String,
    pub current: u32,
    pub unit: String,
    pub values: Vec<u32>,
    pub module: String,
}

/// The contents of a sensor's export.
pub struct ExportView {
    pub name: Seq<char>,
    pub current: u32,
    pub unit: Seq<char>,
    pub values: Seq<u32>,
    pub module: Seq<char>,
}

impl View for SensorExport {
    type V = ExportView;

    open spec fn view(&self) -> ExportView {
        ExportView {
            name: self.name@,
            current: self.current,
            unit: self.unit@,
            values: self.values@,
            module: self.module@,
        }
    }
}

/// The export of the sensor `n` whose processing state `pv` holds a last
/// measurement and a history: its name, the order key and unit of that
/// measurement, the keys of the history, and the name again as the module it
/// is shown under.
pub open spec fn export_of(n: Seq<char>, pv: ProcessingView) -> ExportView {
    ExportView {
        name: n,
        current: pv.last->0.key,
        unit: pv.last->0.unit,
        values: pv.hist->0.values,
        module: n,
    }
}

/// Whether a processing state can be exported: where it holds a last
/// measurement, it holds a history too.
pub open spec fn can_export(pv: ProcessingView) -> bool {
    pv.last is Some ==> pv.hist is Some
}

impl View for Processing {
    type V = ProcessingView;

    open spec fn view(&self) -> ProcessingView {
        ProcessingView {
            last: match self.last {
                Some(v) => Some(v@),
                None => None,
            },
            hist: match self.hist {
                Some(h) => Some(h@),
                None => None,
            },
        }
    }
}

impl Processing {
    /// A processing state with no measurement and no history.
    pub fn new() -> (r: Processing)
        ensures
            r@ == (ProcessingView { last: None, hist: None }),
    {
        Processing { last: None, hist: None }
    }

    /// A copy of this processing state.
    pub fn duplicate(&self) -> (r: Processing)
        ensures
            r@ == self@,
    {
        let last = match &self.last {
            Some(v) => Some(v.duplicate()),
            None => None,
        };
        let hist = match &self.hist {
            Some(h) => Some(h.duplicate()),
            None => None,
        };
        Processing { last, hist }
    }

    /// Makes a copy of `h` this state's history.
    pub fn init(&mut self, h: &History)
        ensures
            final(self)@ == (ProcessingView { hist: Some(h@), ..old(self)@ }),
    {
        self.hist = Some(h.duplicate());
    }

    /// Decides [`ProcessingView::accepts_update`].
    pub fn accepts_update(&self) -> (b: bool)
        ensures
            b == self@.accepts_update(),
    {
        match &self.hist {
            Some(h) => h.accepts_update(),
            None => true,
        }
    }

    /// Processes the measurement `v`, `ratio_key` being the order key of the
    /// temperature to flow ratio that `v` gives (see
    /// [`ProcessingView::updated`]).
    pub fn update(&mut self, v: Value, ratio_key: u32)
        requires
            old(self)@.accepts_update(),
        ensures
            final(self)@ == old(self)@.updated(v@, ratio_key),
            within_bins(old(self)@) ==> within_bins(final(self)@),
            final(self)@.last == Some(processed(v@, ratio_key)),
            final(self)@.hist matches Some(h) && h.values.last() == processed(v@, ratio_key).key,
            old(self)@.hist matches Some(h) ==> (h.values.len() < h.size ==> final(self)@.hist
                == Some(HistoryView { values: h.values.push(processed(v@, ratio_key).key), ..h })),
    {
        proof {
            lemma_update_adds_measurement(self@, v@, ratio_key);
            if within_bins(self@) {
                lemma_update_within_bins(self@, v@, ratio_key);
            }
        }
        self.last = Some(v);
        self.process(ratio_key);
    }

    fn process(&mut self, ratio_key: u32)
        requires
            old(self)@.accepts_update(),
            old(self)@.last is Some,
        ensures
            final(self)@ == (ProcessingView {
                last: Some(processed(old(self)@.last->0, ratio_key)),
                hist: Some(history_with(old(self)@.hist, processed(old(self)@.last->0, ratio_key))),
            }),
    {
        let temp_name = TEMP_SENSOR_NAME.to_owned();
        let calculated = match &self.last {
            Some(v) => v.value_type == ValueType::FlowSpeed && v.source == temp_name,
            None => false,
        };
        if calculated {
            self.last = Some(
                Value {
                    key: ratio_key,
                    source: "Temp / Flow".to_owned(),
                    value_type: ValueType::Calculated,
                    unit: "Temp h / dL".to_owned(),
                },
            );
        }
        self.update_hist();
    }

    fn update_hist(&mut self)
        requires
            old(self)@.accepts_update(),
            old(self)@.last is Some,
        ensures
            final(self)@ == (ProcessingView {
                last: old(self)@.last,
                hist: Some(history_with(old(self)@.hist, old(self)@.last->0)),
            }),
    {
        match &self.last {
            Some(last) => {
                let last = last.duplicate();
                if self.hist.is_none() {
                    self.hist = Some(
                        History::new(
                            MAX_HIST_SIZE,
                            last.source.as_str(),
                            last.unit.as_str(),
                            last.value_type,
                        ),
                    );
                }
                match &mut self.hist {
                    Some(hist) => hist.update(last),
                    None => {},
                }
            },
            None => {},
        }
    }

    /// The export of this sensor under the name `n`, or `None` where it has
    /// no measurement yet.
    pub fn export(&self, n: &str) -> (r: Option<SensorExport>)
        requires
            can_export(self@),
        ensures
            r is None <==> self@.last is None,
            r matches Some(e) ==> e@ == export_of(n@, self@),
            r matches Some(e) ==> {
                &&& e.name@ == n@
                &&& e.module@ == n@
                &&& e.current == self@.last->0.key
                &&& e.unit@ == self@.last->0.unit
                &&& e.values@ == self@.hist->0.values
            },
    {
        match (&self.last, &self.hist) {
            (Some(l), Some(h)) => {
                let values = h.values_copy();
                Some(
                    SensorExport {
                        name: n.to_owned(),
                        current: l.key,
                        unit: l.unit.clone(),
                        values,
                        module: n.to_owned(),
                    },
                )
            },
            _ => None,
        }
    }
}


/// Processing a measurement leaves it as the last measurement and as the
/// newest value of the history, so that the state can always be exported
/// afterwards.
pub proof fn lemma_update_then_export(pv: ProcessingView, v: ValueView, ratio_key: u32)
    ensures
        pv.updated(v, ratio_key).last == Some(processed(v, ratio_key)),
        pv.updated(v, ratio_key).hist matches Some(h) && h.values.last() == processed(
            v,
            ratio_key,
        ).key,
{
}

/// Whether a processing state keeps its statistics within [`MAX_HIST_SIZE`]
/// bins: where it has a history, that history is well formed with that
/// capacity.
pub open spec fn within_bins(pv: ProcessingView) -> bool {
    pv.hist matches Some(h) ==> h.well_formed() && h.size == MAX_HIST_SIZE
}

/// A sensor's statistics are kept as [`MAX_HIST_SIZE`] bins over all
/// measurements: a state with no history, or one within the bins, accepts
/// every measurement and stays within the bins after it, and a history it
/// starts takes the measurement's source, unit and kind.
pub proof fn lemma_update_within_bins(pv: ProcessingView, v: ValueView, ratio_key: u32)
    requires
        within_bins(pv),
    ensures
        pv.accepts_update(),
        within_bins(pv.updated(v, ratio_key)),
        pv.updated(v, ratio_key).accepts_update(),
        pv.updated(v, ratio_key).hist->0.values.len() <= MAX_HIST_SIZE,
        pv.hist is None ==> {
            let h = pv.updated(v, ratio_key).hist->0;
            let last = processed(v, ratio_key);
            &&& h.source == last.source
            &&& h.unit == last.unit
            &&& h.value_type == last.value_type
        },
{
    let last = processed(v, ratio_key);
    let h = match pv.hist {
        Some(h) => h,
        None => HistoryView {
            values: Seq::empty(),
            source: last.source,
            unit: last.unit,
            value_type: last.value_type,
            size: MAX_HIST_SIZE as nat,
            update_ptr: 0,
        },
    };
    crate::history::lemma_update_keeps_well_formed(h, last.key);
}

/// Processing never skips a measurement: the processed measurement becomes
/// the last one and the newest value of the history; a history with room
/// for it gains it after all its older values, unchanged otherwise; a state
/// without a history starts one that holds just it, for the measurement's
/// source, unit and kind; a full well-formed history keeps its length.
pub proof fn lemma_update_adds_measurement(pv: ProcessingView, v: ValueView, ratio_key: u32)
    ensures
        pv.updated(v, ratio_key).last == Some(processed(v, ratio_key)),
        pv.updated(v, ratio_key).hist matches Some(h) && h.values.last() == processed(
            v,
            ratio_key,
        ).key,
        pv.hist matches Some(h) ==> (h.values.len() < h.size ==> pv.updated(v, ratio_key).hist
            == Some(HistoryView { values: h.values.push(processed(v, ratio_key).key), ..h })),
        pv.hist matches Some(h) ==> (h.well_formed() && h.values.len() == h.size ==> pv.updated(
            v,
            ratio_key,
        ).hist->0.values.len() == h.size),
        pv.hist is None ==> pv.updated(v, ratio_key).hist == Some(
            HistoryView {
                values: seq![processed(v, ratio_key).key],
                source: processed(v, ratio_key).source,
                unit: processed(v, ratio_key).unit,
                value_type: processed(v, ratio_key).value_type,
                size: MAX_HIST_SIZE as nat,
                update_ptr: 0,
            },
        ),
{
    let last = processed(v, ratio_key);
    match pv.hist {
        Some(h) => {
            crate::history::lemma_update_adds(h, last.key);
            if h.values.len() < h.size {
                assert(h.updated(last.key) =~= HistoryView { values: h.values.push(last.key), ..h });
            }
        },
        None => {
            let h0 = HistoryView {
                values: Seq::empty(),
                source: last.source,
                unit: last.unit,
                value_type: last.value_type,
                size: MAX_HIST_SIZE as nat,
                update_ptr: 0,
            };
            crate::history::lemma_update_adds(h0, last.key);
            assert(h0.values.push(last.key) =~= seq![last.key]);
        },
    }
}

/// A sensor's export shows its last measurement: the current value is that
/// measurement's order key and the unit its unit, the history's keys follow
/// unchanged, and the name is given as both the sensor's and the module's.
/// So after a measurement is processed, the export shows it as the current
/// value and as the newest value of the history.
pub proof fn lemma_export_shows_last(n: Seq<char>, pv: ProcessingView, v: ValueView, ratio_key: u32)
    ensures
        pv.last matches Some(l) ==> export_of(n, pv).current == l.key && export_of(n, pv).unit
            == l.unit,
        pv.hist matches Some(h) ==> export_of(n, pv).values == h.values,
        export_of(n, pv).name == n && export_of(n, pv).module == n,
        export_of(n, pv.updated(v, ratio_key)).current == processed(v, ratio_key).key,
        export_of(n, pv.updated(v, ratio_key)).unit == processed(v, ratio_key).unit,
        export_of(n, pv.updated(v, ratio_key)).values.last() == processed(v, ratio_key).key,
{
    lemma_update_adds_measurement(pv, v, ratio_key);
}

} // verus!
