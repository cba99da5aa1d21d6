//! Parsing, classification and bookkeeping logic of the ALVR streamer's
//! telemetry, protocol pieces, launcher, build tooling and headset glue.

pub mod text;
pub mod num;
pub mod nvsmi;
pub mod lhm;
pub mod readings;
pub mod hwmon;
pub mod readout;
pub mod metrics;
pub mod procfs;
pub mod android;
pub mod session;
pub mod launcher;
pub mod packets;
pub mod events;
pub mod buildplan;
