//! Sensor modules: the sensors of one kernel module with their processing
//! state, and the monitor's configuration made of such modules.

use vstd::prelude::*;

use crate::history::{History, HistoryView};
use crate::keyed::{
    entry_names, find_name, is_first, lemma_lookup_entry, lemma_lookup_push, lemma_lookup_upsert,
    lemma_position, lemma_upsert_distinct, lemma_upsert_entries, lookup, names_distinct, names_of,
    upsert,
};
use crate::processing::{
    can_export, export_of, lemma_update_within_bins, within_bins, ExportView, Processing,
    ProcessingView, SensorExport, Value,
};
use crate::sensors::{
    SensorConfig, SensorConfigView, SensorType, FLOW_SPEED_NAME, MAINBOARD_MODULE, PUMP_SPEED_NAME,
    QUADRO_MODULE, TEMP_SENSOR_NAME,
};

verus! {

/// A kernel module's sensors and the processing state of each sensor that
/// has been read or restored, by sensor name.
#[derive(Debug)]
pub struct Module {
    pub module_name: String,
    pub sensors: Vec<SensorConfig>,
    pub p: Vec<(String, Processing)>,
}

/// The contents of a module.
#[verifier::ext_equal]
pub struct ModuleView {
    pub module_name: Seq<char>,
    pub sensors: Seq<SensorConfigView>,
    pub p: Seq<(Seq<char>, ProcessingView)>,
}

/// The contents of processing entries.
pub open spec fn processing_entries(p: Seq<(String, Processing)>) -> Seq<(Seq<char>, ProcessingView)> {
    p.map_values(|e: (String, Processing)| (e.0@, e.1@))
}

/// The contents of history entries.
pub open spec fn history_entries(h: Seq<(String, History)>) -> Seq<(Seq<char>, HistoryView)> {
    h.map_values(|e: (String, History)| (e.0@, e.1@))
}

/// The contents of sensor configurations.
pub open spec fn sensor_views(s: Seq<SensorConfig>) -> Seq<SensorConfigView> {
    s.map_values(|c: SensorConfig| c@)
}

impl View for Module {
    type V = ModuleView;

    open spec fn view(&self) -> ModuleView {
        ModuleView {
            module_name: self.module_name@,
            sensors: sensor_views(self.sensors@),
            p: processing_entries(self.p@),
        }
    }
}

/// The processing entries that restoring the histories `hs` gives for the
/// sensors `sensors`: taking the sensors in order, each that has a history
/// in `hs` gets a fresh processing state holding that history.
pub open spec fn loaded(sensors: Seq<SensorConfigView>, hs: Seq<(Seq<char>, HistoryView)>) -> Seq<
    (Seq<char>, ProcessingView),
>
    decreases sensors.len(),
{
    if sensors.len() == 0 {
        Seq::empty()
    } else {
        let prev = loaded(sensors.drop_last(), hs);
        let name = sensors.last().name;
        match lookup(hs, name) {
            Some(h) => upsert(prev, name, ProcessingView { last: None, hist: Some(h) }),
            None => prev,
        }
    }
}

/// The histories held by the processing entries `p`, by sensor name, in
/// order.
pub open spec fn exported(p: Seq<(Seq<char>, ProcessingView)>) -> Seq<(Seq<char>, HistoryView)>
    decreases p.len(),
{
    if p.len() == 0 {
        Seq::empty()
    } else {
        let prev = exported(p.drop_last());
        match p.last().1.hist {
            Some(h) => prev.push((p.last().0, h)),
            None => prev,
        }
    }
}

/// The processing state that a measurement `v` leaves for a sensor whose
/// state was `prev` (none for a sensor not yet seen).
pub open spec fn recorded(prev: Option<ProcessingView>, v: crate::processing::ValueView, ratio_key: u32) -> ProcessingView {
    match prev {
        Some(pv) => pv.updated(v, ratio_key),
        None => (ProcessingView { last: None, hist: None }).updated(v, ratio_key),
    }
}

/// Whether every processing state among the entries `p` can be exported
/// (see [`can_export`]).
pub open spec fn exportable(p: Seq<(Seq<char>, ProcessingView)>) -> bool {
    forall|i: int| 0 <= i < p.len() ==> can_export((#[trigger] p[i]).1)
}

/// Whether every processing state among the entries `p` keeps its
/// statistics within the bins (see [`within_bins`]).
pub open spec fn all_within_bins(p: Seq<(Seq<char>, ProcessingView)>) -> bool {
    forall|i: int| 0 <= i < p.len() ==> within_bins((#[trigger] p[i]).1)
}

/// The exports of the entries `p` whose processing state holds a last
/// measurement, in order (see [`export_of`]).
pub open spec fn exports_of(p: Seq<(Seq<char>, ProcessingView)>) -> Seq<ExportView>
    decreases p.len(),
{
    if p.len() == 0 {
        Seq::empty()
    } else {
        let prev = exports_of(p.drop_last());
        if p.last().1.last is Some {
            prev.push(export_of(p.last().0, p.last().1))
        } else {
            prev
        }
    }
}

/// The contents of exports.
pub open spec fn export_views(es: Seq<SensorExport>) -> Seq<ExportView> {
    es.map_values(|e: SensorExport| e@)
}

fn upsert_processing(p: &mut Vec<(String, Processing)>, k: String, v: Processing)
    ensures
        processing_entries(final(p)@) == upsert(processing_entries(old(p)@), k@, v@),
{
    let ghost old_p = processing_entries(p@);
    assert(entry_names(p@) =~= names_of(old_p));
    match find_name(p, &k) {
        Some(i) => {
            let _ = p.remove(i);
            p.insert(i, (k, v));
            assert(processing_entries(p@) =~= old_p.update(i as int, (k@, v@)));
        },
        None => {
            p.push((k, v));
            assert(processing_entries(p@) =~= old_p.push((k@, v@)));
        },
    }
}

impl Module {
    /// A module named `name` with the sensors `sensors` and no processing
    /// state.
    pub fn new(name: &str, sensors: Vec<SensorConfig>) -> (r: Module)
        ensures
            names_distinct(names_of(r@.p)),
            exportable(r@.p),
            all_within_bins(r@.p),
            r@ == (ModuleView {
                module_name: name@,
                sensors: sensor_views(sensors@),
                p: Seq::empty(),
            }),
    {
        let r = Module { module_name: name.to_owned(), sensors, p: Vec::new() };
        assert(r@.p =~= Seq::empty());
        r
    }

    /// Whether the measurement of the sensor `name` can be recorded: the
    /// sensor's processing state, where it has one, accepts an update.
    pub open spec fn accepts_record(self, name: Seq<char>) -> bool {
        lookup(self@.p, name) matches Some(pv) ==> pv.accepts_update()
    }

    /// Decides [`Self::accepts_record`].
    pub fn can_record(&self, name: &String) -> (b: bool)
        ensures
            b == self.accepts_record(name@),
    {
        assert(entry_names(self.p@) =~= names_of(self@.p));
        match find_name(&self.p, name) {
            Some(i) => self.p[i].1.accepts_update(),
            None => true,
        }
    }

    /// Records the measurement `v` of the sensor `name`, `ratio_key` being
    /// the order key of the temperature to flow ratio that `v` gives: the
    /// sensor's processing state, started where it has none, processes it.
    pub fn record(&mut self, name: String, v: Value, ratio_key: u32)
        requires
            old(self).accepts_record(name@),
        ensures
            final(self)@ == (ModuleView {
                p: upsert(old(self)@.p, name@, recorded(lookup(old(self)@.p, name@), v@, ratio_key)),
                ..old(self)@
            }),
            names_distinct(names_of(old(self)@.p)) ==> names_distinct(names_of(final(self)@.p)),
            exportable(old(self)@.p) ==> exportable(final(self)@.p),
            all_within_bins(old(self)@.p) ==> all_within_bins(final(self)@.p),
    {
        proof {
            lemma_record_keeps_bins(self@.p, name@, v@, ratio_key);
            if names_distinct(names_of(self@.p)) {
                lemma_upsert_distinct(
                    self@.p,
                    name@,
                    recorded(lookup(self@.p, name@), v@, ratio_key),
                );
            }
        }
        let ghost old_p = self@.p;
        assert(entry_names(self.p@) =~= names_of(old_p));
        match find_name(&self.p, &name) {
            Some(i) => {
                proof {
                    lemma_position(names_of(old_p), name@);
                }
                let mut entry = self.p.remove(i);
                entry.1.update(v, ratio_key);
                self.p.insert(i, entry);
                assert(self@.p =~= old_p.update(
                    i as int,
                    (name@, recorded(lookup(old_p, name@), v@, ratio_key)),
                ));
            },
            None => {
                let mut pr = Processing::new();
                pr.update(v, ratio_key);
                self.p.push((name, pr));
                assert(self@.p =~= old_p.push((name@, recorded(None, v@, ratio_key))));
            },
        }
    }

    /// Replaces the processing state by that restored from the histories
    /// `h` (see [`loaded`]).
    pub fn load_processing(&mut self, h: &Vec<(String, History)>)
        ensures
            final(self)@ == (ModuleView {
                p: loaded(old(self)@.sensors, history_entries(h@)),
                ..old(self)@
            }),
            names_distinct(names_of(final(self)@.p)),
            exportable(final(self)@.p),
    {
        proof {
            lemma_loaded_names_distinct(self@.sensors, history_entries(h@));
            lemma_loaded_fresh(self@.sensors, history_entries(h@));
        }
        let ghost hs = history_entries(h@);
        assert(entry_names(h@) =~= names_of(hs));
        self.p.clear();
        let n = self.sensors.len();
        for si in 0..n
            invariant
                n == self.sensors@.len(),
                self.module_name == old(self).module_name,
                self.sensors == old(self).sensors,
                hs == history_entries(h@),
                entry_names(h@) == names_of(hs),
                processing_entries(self.p@) == loaded(
                    sensor_views(self.sensors@).take(si as int),
                    hs,
                ),
        {
            let name = &self.sensors[si].name;
            proof {
                let s = sensor_views(self.sensors@).take(si + 1);
                assert(s.drop_last() =~= sensor_views(self.sensors@).take(si as int));
                assert(s.last() == self.sensors@[si as int]@);
            }
            match find_name(h, name) {
                Some(j) => {
                    let mut pr = Processing::new();
                    pr.init(&h[j].1);
                    upsert_processing(&mut self.p, name.clone(), pr);
                },
                None => {},
            }
        }
        assert(sensor_views(self.sensors@).take(n as int) =~= sensor_views(self.sensors@));
    }

    /// The histories of this module's sensors, by sensor name (see
    /// [`exported`]).
    pub fn export_hist(&self) -> (r: Vec<(String, History)>)
        ensures
            history_entries(r@) == exported(self@.p),
    {
        let mut r: Vec<(String, History)> = Vec::new();
        let n = self.p.len();
        for i in 0..n
            invariant
                n == self.p@.len(),
                history_entries(r@) == exported(processing_entries(self.p@).take(i as int)),
        {
            proof {
                let q = processing_entries(self.p@).take(i + 1);
                assert(q.drop_last() =~= processing_entries(self.p@).take(i as int));
            }
            match &self.p[i].1.hist {
                Some(h) => {
                    let ghost before = r@;
                    r.push((self.p[i].0.clone(), h.duplicate()));
                    assert(history_entries(r@) =~= history_entries(before).push(
                        (self.p@[i as int].0@, h@),
                    ));
                },
                None => {},
            }
        }
        assert(processing_entries(self.p@).take(n as int) =~= processing_entries(self.p@));
        r
    }

    /// Decides whether [`Self::exports`] may be called (see [`exportable`]).
    pub fn is_exportable(&self) -> (b: bool)
        ensures
            b == exportable(self@.p),
    {
        let n = self.p.len();
        for i in 0..n
            invariant
                n == self.p@.len(),
                forall|j: int| 0 <= j < i ==> can_export((#[trigger] self@.p[j]).1),
        {
            if self.p[i].1.last.is_some() && self.p[i].1.hist.is_none() {
                assert(!can_export(self@.p[i as int].1));
                return false;
            }
        }
        true
    }

    /// The exports of this module's sensors that hold a measurement, in the
    /// order of their processing states (see [`exports_of`]).
    pub fn exports(&self) -> (r: Vec<SensorExport>)
        requires
            exportable(self@.p),
        ensures
            export_views(r@) == exports_of(self@.p),
    {
        let mut r: Vec<SensorExport> = Vec::new();
        let n = self.p.len();
        for i in 0..n
            invariant
                n == self.p@.len(),
                exportable(self@.p),
                export_views(r@) == exports_of(processing_entries(self.p@).take(i as int)),
        {
            proof {
                let q = processing_entries(self.p@).take(i + 1);
                assert(q.drop_last() =~= processing_entries(self.p@).take(i as int));
                assert(can_export(self@.p[i as int].1));
            }
            let ghost before = r@;
            match self.p[i].1.export(self.p[i].0.as_str()) {
                Some(e) => {
                    r.push(e);
                    assert(export_views(r@) =~= export_views(before).push(e@));
                },
                None => {},
            }
        }
        assert(processing_entries(self.p@).take(n as int) =~= processing_entries(self.p@));
        r
    }

    /// A copy of this module: its name, its sensors and the processing state
    /// of each of them.
    pub fn duplicate(&self) -> (r: Module)
        ensures
            r@ == self@,
    {
        let mut sensors: Vec<SensorConfig> = Vec::new();
        let n = self.sensors.len();
        for i in 0..n
            invariant
                n == self.sensors@.len(),
                sensor_views(sensors@) == sensor_views(self.sensors@).take(i as int),
        {
            let c = SensorConfig::new(self.sensors[i].name.as_str(), self.sensors[i].s_type);
            let ghost before = sensors@;
            sensors.push(c);
            assert(sensor_views(sensors@) =~= sensor_views(before).push(c@));
            assert(sensor_views(self.sensors@).take(i + 1) =~= sensor_views(self.sensors@).take(
                i as int,
            ).push(self.sensors@[i as int]@));
        }
        let mut p: Vec<(String, Processing)> = Vec::new();
        let m = self.p.len();
        for i in 0..m
            invariant
                m == self.p@.len(),
                processing_entries(p@) == processing_entries(self.p@).take(i as int),
        {
            let e = (self.p[i].0.clone(), self.p[i].1.duplicate());
            let ghost before = p@;
            p.push(e);
            assert(processing_entries(p@) =~= processing_entries(before).push((e.0@, e.1@)));
            assert(processing_entries(self.p@).take(i + 1) =~= processing_entries(self.p@).take(
                i as int,
            ).push((self.p@[i as int].0@, self.p@[i as int].1@)));
        }
        assert(sensor_views(self.sensors@).take(n as int) =~= sensor_views(self.sensors@));
        assert(processing_entries(self.p@).take(m as int) =~= processing_entries(self.p@));
        Module { module_name: self.module_name.clone(), sensors, p }
    }
}


/// The monitor's configuration: its sensor modules, and whether the server
/// reports its waits for packages.
#[derive(Debug)]
pub struct Config {
    pub modules: Vec<Module>,
    pub verbose: bool,
}

/// The contents of modules.
pub open spec fn module_views(ms: Seq<Module>) -> Seq<ModuleView> {
    ms.map_values(|m: Module| m@)
}

/// The modules of the default configuration: the cooling controller with its
/// flow and temperature sensors, and the mainboard with its pump fan sensor,
/// none with processing state.
pub open spec fn default_modules() -> Seq<ModuleView> {
    seq![
        ModuleView {
            module_name: QUADRO_MODULE@,
            sensors: seq![
                SensorConfigView { name: FLOW_SPEED_NAME@, s_type: SensorType::FlowSpeed },
                SensorConfigView { name: TEMP_SENSOR_NAME@, s_type: SensorType::Temperature },
            ],
            p: Seq::empty(),
        },
        ModuleView {
            module_name: MAINBOARD_MODULE@,
            sensors: seq![SensorConfigView { name: PUMP_SPEED_NAME@, s_type: SensorType::FanSpeed }],
            p: Seq::empty(),
        },
    ]
}

impl Default for Config {
    fn default() -> (r: Self)
        ensures
            module_views(r.modules@) == default_modules(),
            !r.verbose,
    {
        let mut quadro_sensors: Vec<SensorConfig> = Vec::new();
        quadro_sensors.push(SensorConfig::new(FLOW_SPEED_NAME, SensorType::FlowSpeed));
        quadro_sensors.push(SensorConfig::new(TEMP_SENSOR_NAME, SensorType::Temperature));
        let mut board_sensors: Vec<SensorConfig> = Vec::new();
        board_sensors.push(SensorConfig::new(PUMP_SPEED_NAME, SensorType::FanSpeed));
        let quadro = Module::new(QUADRO_MODULE, quadro_sensors);
        let board = Module::new(MAINBOARD_MODULE, board_sensors);
        let mut modules: Vec<Module> = Vec::new();
        modules.push(quadro);
        modules.push(board);
        let r = Config { modules, verbose: false };
        assert(sensor_views(quadro_sensors@) =~= default_modules()[0].sensors);
        assert(sensor_views(board_sensors@) =~= default_modules()[1].sensors);
        assert(module_views(r.modules@) =~= default_modules());
        r
    }
}

impl Config {
    /// A copy of this configuration, with the processing state of every
    /// module.
    pub fn duplicate(&self) -> (r: Config)
        ensures
            module_views(r.modules@) == module_views(self.modules@),
            r.verbose == self.verbose,
    {
        let mut modules: Vec<Module> = Vec::new();
        let n = self.modules.len();
        for i in 0..n
            invariant
                n == self.modules@.len(),
                module_views(modules@) == module_views(self.modules@).take(i as int),
        {
            let m = self.modules[i].duplicate();
            let ghost before = modules@;
            modules.push(m);
            assert(module_views(modules@) =~= module_views(before).push(m@));
            assert(module_views(self.modules@).take(i + 1) =~= module_views(self.modules@).take(
                i as int,
            ).push(self.modules@[i as int]@));
        }
        assert(module_views(self.modules@).take(n as int) =~= module_views(self.modules@));
        Config { modules, verbose: self.verbose }
    }
}

/// The contents of cached histories, by module name.
pub open spec fn cache_entries(maps: Seq<(String, Vec<(String, History)>)>) -> Seq<
    (Seq<char>, Seq<(Seq<char>, HistoryView)>),
> {
    maps.map_values(|e: (String, Vec<(String, History)>)| (e.0@, history_entries(e.1@)))
}

/// The module `m` after restoring from the cached histories `maps`: where
/// `maps` holds histories for its name, its processing state is that which
/// they give its sensors (see [`loaded`]); else it is unchanged.
pub open spec fn restored(m: ModuleView, maps: Seq<(Seq<char>, Seq<(Seq<char>, HistoryView)>)>) -> ModuleView {
    match lookup(maps, m.module_name) {
        Some(hs) => ModuleView { p: loaded(m.sensors, hs), ..m },
        None => m,
    }
}

/// Restores every module of `c` from the cached histories `maps`, keyed by
/// module name (see [`restored`]).
pub fn restore_cache(c: &mut Config, maps: &Vec<(String, Vec<(String, History)>)>)
    ensures
        module_views(final(c).modules@) == module_views(old(c).modules@).map_values(
            |m: ModuleView| restored(m, cache_entries(maps@)),
        ),
{
    let ghost cm = cache_entries(maps@);
    let ghost before = module_views(c.modules@);
    assert(entry_names(maps@) =~= names_of(cm));
    let n = c.modules.len();
    for i in 0..n
        invariant
            n == c.modules@.len(),
            before.len() == n,
            cm == cache_entries(maps@),
            entry_names(maps@) == names_of(cm),
            forall|k: int| 0 <= k < i ==> #[trigger] module_views(c.modules@)[k] == restored(before[k], cm),
            forall|k: int| i <= k < n ==> #[trigger] module_views(c.modules@)[k] == before[k],
    {
        let ghost cur = c.modules@;
        assert(module_views(cur)[i as int] == cur[i as int]@);
        let mut m = c.modules.remove(i);
        let ghost mv = m@;
        assert(mv == before[i as int]);
        match find_name(maps, &m.module_name) {
            Some(j) => {
                proof {
                    lemma_position(names_of(cm), mv.module_name);
                }
                m.load_processing(&maps[j].1);
            },
            None => {},
        }
        assert(m@ == restored(mv, cm));
        c.modules.insert(i, m);
        proof {
            assert(c.modules@ =~= cur.update(i as int, m));
            assert forall|k: int| 0 <= k < i + 1 implies #[trigger] module_views(c.modules@)[k]
                == restored(before[k], cm) by {
                if k < i {
                    assert(module_views(cur)[k] == cur[k]@);
                }
            }
            assert forall|k: int| i + 1 <= k < n implies #[trigger] module_views(c.modules@)[k]
                == before[k] by {
                assert(module_views(cur)[k] == cur[k]@);
            }
        }
    }
    assert(module_views(c.modules@) =~= before.map_values(|m: ModuleView| restored(m, cm)));
}

/// The histories of every module of `c`, by module name, in the order of the
/// modules (see [`exported`]).
pub fn export_histories(c: &Config) -> (r: Vec<(String, Vec<(String, History)>)>)
    ensures
        cache_entries(r@) == module_views(c.modules@).map_values(
            |m: ModuleView| (m.module_name, exported(m.p)),
        ),
{
    let mut r: Vec<(String, Vec<(String, History)>)> = Vec::new();
    let n = c.modules.len();
    for i in 0..n
        invariant
            n == c.modules@.len(),
            cache_entries(r@) == module_views(c.modules@).take(i as int).map_values(
                |m: ModuleView| (m.module_name, exported(m.p)),
            ),
    {
        let m = &c.modules[i];
        let ghost before = r@;
        let e = m.export_hist();
        r.push((m.module_name.clone(), e));
        assert(module_views(c.modules@)[i as int] == c.modules@[i as int]@);
        assert(cache_entries(r@) =~= cache_entries(before).push((m@.module_name, history_entries(e@))));
        assert(cache_entries(r@) =~= module_views(c.modules@).take(i + 1).map_values(
            |m: ModuleView| (m.module_name, exported(m.p)),
        ));
    }
    assert(module_views(c.modules@).take(n as int) =~= module_views(c.modules@));
    r
}


/// The history that the processing entries `p` hold for the name `k`.
pub open spec fn history_of(p: Seq<(Seq<char>, ProcessingView)>, k: Seq<char>) -> Option<HistoryView> {
    match lookup(p, k) {
        Some(pv) => pv.hist,
        None => None,
    }
}

/// Whether one of the sensors `s` is named `k`.
pub open spec fn has_sensor(s: Seq<SensorConfigView>, k: Seq<char>) -> bool {
    exists|i: int| 0 <= i < s.len() && s[i].name == k
}

proof fn lemma_lookup_exported(p: Seq<(Seq<char>, ProcessingView)>, k: Seq<char>)
    requires
        names_distinct(names_of(p)),
    ensures
        lookup(exported(p), k) == history_of(p, k),
    decreases p.len(),
{
    if p.len() > 0 {
        let q = p.drop_last();
        let e = p.last();
        assert(names_of(q) =~= names_of(p).drop_last());
        lemma_lookup_exported(q, k);
        assert(p =~= q.push(e));
        lemma_lookup_push(q, e, k);
        lemma_position(names_of(q), k);
        if e.0 == k && lookup(q, k) is Some {
            let i = choose|i: int| 0 <= i < names_of(q).len() && names_of(q)[i] == k;
            assert(names_of(p)[i] == names_of(p)[p.len() - 1]);
        }
        match e.1.hist {
            Some(h) => {
                lemma_lookup_push(exported(q), (e.0, h), k);
            },
            None => {},
        }
    }
}

proof fn lemma_lookup_loaded(s: Seq<SensorConfigView>, hs: Seq<(Seq<char>, HistoryView)>, k: Seq<char>)
    ensures
        lookup(loaded(s, hs), k) == if has_sensor(s, k) {
            match lookup(hs, k) {
                Some(h) => Some(ProcessingView { last: None, hist: Some(h) }),
                None => None,
            }
        } else {
            None
        },
    decreases s.len(),
{
    if s.len() == 0 {
        assert(names_of(loaded(s, hs)) =~= Seq::<Seq<char>>::empty());
        lemma_position(names_of(loaded(s, hs)), k);
    } else {
        let t = s.drop_last();
        let name = s.last().name;
        lemma_lookup_loaded(t, hs, k);
        match lookup(hs, name) {
            Some(h) => {
                lemma_lookup_upsert(loaded(t, hs), name, ProcessingView { last: None, hist: Some(h) }, k);
            },
            None => {},
        }
        if has_sensor(s, k) && !has_sensor(t, k) {
            let i = choose|i: int| 0 <= i < s.len() && s[i].name == k;
            if i < t.len() {
                assert(t[i].name == k);
            }
        }
        if has_sensor(t, k) {
            let i = choose|i: int| 0 <= i < t.len() && t[i].name == k;
            assert(s[i].name == k);
        }
    }
}

/// Loading never gives a sensor name two processing states.
pub proof fn lemma_loaded_names_distinct(s: Seq<SensorConfigView>, hs: Seq<(Seq<char>, HistoryView)>)
    ensures
        names_distinct(names_of(loaded(s, hs))),
    decreases s.len(),
{
    if s.len() == 0 {
        assert(names_of(loaded(s, hs)) =~= Seq::<Seq<char>>::empty());
    } else {
        lemma_loaded_names_distinct(s.drop_last(), hs);
        match lookup(hs, s.last().name) {
            Some(h) => {
                lemma_upsert_distinct(
                    loaded(s.drop_last(), hs),
                    s.last().name,
                    ProcessingView { last: None, hist: Some(h) },
                );
            },
            None => {},
        }
    }
}

/// What a restore gives back of a save: loading a module from the histories
/// that it exported gives each of its sensors a fresh processing state that
/// holds the history it had, provided it had one; sensors without a history,
/// and names of no sensor of the module, get no processing state.
pub proof fn lemma_restore_exported(m: ModuleView, k: Seq<char>)
    requires
        names_distinct(names_of(m.p)),
    ensures
        lookup(loaded(m.sensors, exported(m.p)), k) == if has_sensor(m.sensors, k) {
            match history_of(m.p, k) {
                Some(h) => Some(ProcessingView { last: None, hist: Some(h) }),
                None => None,
            }
        } else {
            None
        },
{
    lemma_lookup_exported(m.p, k);
    lemma_lookup_loaded(m.sensors, exported(m.p), k);
}

/// Restoring a configuration from the histories it saved: where no two
/// modules share a name, each module is loaded from its own exported
/// histories.
pub proof fn lemma_restore_saved(ms: Seq<ModuleView>, i: int)
    requires
        0 <= i < ms.len(),
        forall|a: int, b: int| 0 <= a < b < ms.len() ==> ms[a].module_name != ms[b].module_name,
    ensures
        restored(ms[i], ms.map_values(|m: ModuleView| (m.module_name, exported(m.p)))) == (ModuleView {
            p: loaded(ms[i].sensors, exported(ms[i].p)),
            ..ms[i]
        }),
{
    let cache = ms.map_values(|m: ModuleView| (m.module_name, exported(m.p)));
    let ks = names_of(cache);
    assert(ks[i] == ms[i].module_name);
    assert forall|j: int| 0 <= j < i implies ks[j] != ms[i].module_name by {
        assert(ks[j] == ms[j].module_name);
    }
    assert(is_first(ks, ms[i].module_name, i));
    lemma_position(ks, ms[i].module_name);
}

/// Recording a measurement keeps every sensor's processing state apart: no
/// sensor name occurs twice, and the recorded sensor's state is the one its
/// measurement left; every other sensor's state is unchanged.
pub proof fn lemma_record_keeps_names_distinct(
    p: Seq<(Seq<char>, ProcessingView)>,
    name: Seq<char>,
    v: crate::processing::ValueView,
    ratio_key: u32,
    k: Seq<char>,
)
    requires
        names_distinct(names_of(p)),
    ensures
        names_distinct(names_of(upsert(p, name, recorded(lookup(p, name), v, ratio_key)))),
        lookup(upsert(p, name, recorded(lookup(p, name), v, ratio_key)), k) == if k == name {
            Some(recorded(lookup(p, name), v, ratio_key))
        } else {
            lookup(p, k)
        },
{
    lemma_upsert_distinct(p, name, recorded(lookup(p, name), v, ratio_key));
    lemma_lookup_upsert(p, name, recorded(lookup(p, name), v, ratio_key), k);
}

/// Recording a measurement keeps a module exportable and its statistics
/// within the bins, and a module whose sensors are all within the bins
/// accepts every measurement: the state it records is exportable and within
/// the bins again.
pub proof fn lemma_record_keeps_bins(
    p: Seq<(Seq<char>, ProcessingView)>,
    name: Seq<char>,
    v: crate::processing::ValueView,
    ratio_key: u32,
)
    ensures
        exportable(p) ==> exportable(upsert(p, name, recorded(lookup(p, name), v, ratio_key))),
        all_within_bins(p) ==> (lookup(p, name) matches Some(pv) ==> pv.accepts_update()),
        all_within_bins(p) ==> all_within_bins(
            upsert(p, name, recorded(lookup(p, name), v, ratio_key)),
        ),
{
    let rec = recorded(lookup(p, name), v, ratio_key);
    let q = upsert(p, name, rec);
    lemma_upsert_entries(p, name, rec);
    lemma_lookup_entry(p, name);
    assert(can_export(rec));
    if exportable(p) {
        assert forall|i: int| 0 <= i < q.len() implies can_export((#[trigger] q[i]).1) by {
            if q[i] != (name, rec) {
                assert(can_export(p[i].1));
            }
        }
    }
    if all_within_bins(p) {
        let fresh = ProcessingView { last: None, hist: None };
        match lookup(p, name) {
            Some(pv) => {
                let j = choose|j: int| 0 <= j < p.len() && #[trigger] p[j] == (name, pv);
                assert(within_bins(p[j].1));
                lemma_update_within_bins(pv, v, ratio_key);
            },
            None => {
                lemma_update_within_bins(fresh, v, ratio_key);
            },
        }
        assert forall|i: int| 0 <= i < q.len() implies within_bins((#[trigger] q[i]).1) by {
            if q[i] != (name, rec) {
                assert(within_bins(p[i].1));
            }
        }
    }
}

/// Every processing state that loading gives holds no measurement yet.
proof fn lemma_loaded_fresh(s: Seq<SensorConfigView>, hs: Seq<(Seq<char>, HistoryView)>)
    ensures
        forall|i: int|
            0 <= i < loaded(s, hs).len() ==> (#[trigger] loaded(s, hs)[i]).1.last is None,
        exportable(loaded(s, hs)),
    decreases s.len(),
{
    if s.len() > 0 {
        let prev = loaded(s.drop_last(), hs);
        lemma_loaded_fresh(s.drop_last(), hs);
        match lookup(hs, s.last().name) {
            Some(h) => {
                let pv = ProcessingView { last: None, hist: Some(h) };
                lemma_upsert_entries(prev, s.last().name, pv);
                let q = upsert(prev, s.last().name, pv);
                assert forall|i: int| 0 <= i < q.len() implies (#[trigger] q[i]).1.last is None by {
                    if q[i] != (s.last().name, pv) {
                        assert(prev[i].1.last is None);
                    }
                }
            },
            None => {},
        }
    }
    let l = loaded(s, hs);
    assert forall|i: int| 0 <= i < l.len() implies can_export((#[trigger] l[i]).1) by {
        assert(l[i].1.last is None);
    }
}

/// The histories that processing entries with distinct names export carry
/// distinct names too, each of them the name of an entry.
proof fn lemma_exported_names(p: Seq<(Seq<char>, ProcessingView)>)
    requires
        names_distinct(names_of(p)),
    ensures
        names_distinct(names_of(exported(p))),
        forall|k: Seq<char>| #[trigger] names_of(exported(p)).contains(k) ==> names_of(p).contains(k),
    decreases p.len(),
{
    if p.len() > 0 {
        let q = p.drop_last();
        let e = p.last();
        assert(names_of(q) =~= names_of(p).drop_last());
        lemma_exported_names(q);
        assert forall|k: Seq<char>| #[trigger] names_of(q).contains(k) implies names_of(p).contains(k) by {
            let t = choose|t: int| 0 <= t < names_of(q).len() && names_of(q)[t] == k;
            assert(names_of(p)[t] == k);
        }
        match e.1.hist {
            Some(h) => {
                let x = exported(q);
                assert(names_of(exported(p)) =~= names_of(x).push(e.0));
                assert(names_of(p)[p.len() - 1] == e.0);
                if names_of(x).contains(e.0) {
                    let t = choose|t: int| 0 <= t < names_of(q).len() && names_of(q)[t] == e.0;
                    assert(names_of(p)[t] == names_of(p)[p.len() - 1]);
                }
                assert forall|k: Seq<char>| #[trigger]
                    names_of(exported(p)).contains(k) implies names_of(p).contains(k) by {
                    let t = choose|t: int|
                        0 <= t < names_of(exported(p)).len() && names_of(exported(p))[t] == k;
                    if t < names_of(x).len() {
                        assert(names_of(x)[t] == k);
                        assert(names_of(x).contains(k));
                    }
                }
                assert forall|i: int, j: int|
                    0 <= i < j < names_of(exported(p)).len() implies names_of(exported(p))[i]
                    != names_of(exported(p))[j] by {
                    if j == names_of(x).len() {
                        assert(names_of(x)[i] == names_of(exported(p))[i]);
                        assert(names_of(x).contains(names_of(x)[i]));
                    } else {
                        assert(names_of(x)[i] == names_of(exported(p))[i]);
                        assert(names_of(x)[j] == names_of(exported(p))[j]);
                    }
                }
            },
            None => {
                assert(exported(p) == exported(q));
            },
        }
    } else {
        assert(names_of(exported(p)) =~= Seq::<Seq<char>>::empty());
    }
}

/// What a save gives back of a restore: the histories that a module exports
/// after it was loaded from the histories `hs` are those that `hs` holds for
/// its sensors, each unchanged; no other name occurs among them, and none
/// twice.
pub proof fn lemma_export_loaded(
    s: Seq<SensorConfigView>,
    hs: Seq<(Seq<char>, HistoryView)>,
    k: Seq<char>,
)
    ensures
        lookup(exported(loaded(s, hs)), k) == if has_sensor(s, k) {
            lookup(hs, k)
        } else {
            None
        },
        names_distinct(names_of(exported(loaded(s, hs)))),
{
    lemma_loaded_names_distinct(s, hs);
    lemma_lookup_exported(loaded(s, hs), k);
    lemma_lookup_loaded(s, hs, k);
    lemma_exported_names(loaded(s, hs));
}

} // verus!
