//! Acquisition and normalisation of Kwollect measurements: a JSON codec for
//! measurement records, the query URL of a fetch window, and the decisions of
//! the poll cycle, each with a proved contract.
//!
//! Nothing here waits, locks or touches the network: the caller fetches the
//! text and reads the clock, and hands both in as plain values.

pub mod json;
pub mod kwollect;
pub mod label;
pub mod output;
pub mod plugin;
pub mod source;
pub mod window;

pub use plugin::KwollectPluginInput;
pub use window::{build_kwollect_url, Config};
