//! Sensor monitoring core: parsing of raw sensor readings, the bounded
//! measurement history, packet framing between server and client, and the
//! bookkeeping that ties sensor modules to their processing state.

pub mod text;
pub mod paths;
pub mod sensors;
pub mod processing;
pub mod history;
pub mod keyed;
pub mod sensor_module;
pub mod frame;
pub mod connection;
pub mod chart;
pub mod tracker;
pub mod labels;
pub mod plugin;
pub mod ui;
