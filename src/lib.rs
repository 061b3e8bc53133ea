//! Rate-limit usage tracking for a local assistant tool: parsing of session
//! event logs, normalization of percentages and timestamps, and the store that
//! binds session files to accounts.

pub mod error;
pub mod normalize;
pub mod text;
pub mod decimal;
pub mod json;
pub mod coerce;
pub mod percent;
pub mod window;
pub mod limits;
pub mod usage;
pub mod legacy;
pub mod sessions;
pub mod discovery;
pub mod order;
pub mod bindings;
pub mod attribution;
pub mod remote;
pub mod paths;
pub mod laws;
