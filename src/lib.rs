//! Network flow and DNS telemetry: packet decoding, DNS record rendering and
//! batching of flow records for dispatch to a sink.
pub mod batch;
pub mod dns;
pub mod errors;
pub mod packet;
pub mod storage;
pub mod text;
pub mod utils;
