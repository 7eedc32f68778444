//! Receiver-facing core of a factory tool that verifies and tunes GNSS
//! receivers on a serial link.
//!
//! - `nmea`, `sentence`, `nmea_raw`: decoding of NMEA 0183 sentences into
//!   partial observations and the rule by which they are merged.
//! - `ubx_config`: UBX framing, the catalogue of configuration messages and
//!   the MON-VER identity parser.
//! - `stream`: splitting of the mixed byte stream into text lines and frames.
//! - `gps`: port heuristics, probing, and the state of a connection.
//! - `test_criteria`: the acceptance test state machine.
//! - `ubx_optimizer`: the before/after optimisation state machine.
//! - `commands`, `test_report`: what the command surface decides.
//! - `metrics`, `fixed`, `text`: shared arithmetic and text helpers.
//!
//! Nothing in here reads a port or a file. Real-valued quantities are
//! carried as scaled integers, so every rule is decided by exact integer
//! arithmetic. The state machines take the reading of a monotonic clock as an
//! argument; only the stamp of a report is taken from the wall clock.

mod clock;
pub mod commands;
pub mod fixed;
pub mod gps;
pub mod metrics;
pub mod nmea;
pub mod nmea_raw;
pub mod sentence;
pub mod stream;
pub mod test_criteria;
pub mod test_report;
pub mod text;
pub mod ubx_config;
pub mod ubx_optimizer;
