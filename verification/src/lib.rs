//! Scene-graph construction, draw planning and resource location for a glTF viewer.
//!
//! The crate holds the decisions of the viewer as verified functions on plain
//! values. Transfers, the graphics device and real-number arithmetic stay with
//! the caller: it hands in what it received and carries out what is returned.

pub mod http_source;
pub mod numeral;
pub mod render;
pub mod text;
