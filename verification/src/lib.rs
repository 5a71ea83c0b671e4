//! Battery status of Sony INZONE Buds, read through their USB receiver.

pub mod battery;
pub mod battery_laws;
pub mod cli;
pub mod cli_laws;
pub mod clock;
pub mod device;
pub mod device_laws;
pub mod error;
pub mod error_laws;
pub mod json;
pub mod json_laws;
pub mod lookup;
pub mod path;
pub mod protocol;
pub mod protocol_laws;
pub mod query;
pub mod query_laws;
pub mod sorting;
pub mod text;
pub mod text_laws;
pub mod tray;
pub mod tray_laws;
pub mod worker;
