//! CANopen SDO protocol library.
//!
//! The crate covers the expedited SDO transfer protocol: encoding request
//! frames and decoding response frames, a per-device scheduler that keeps at
//! most one operation in flight per device, a TPDO discovery/configuration
//! workflow built on SDO reads and writes, and a mock SDO server that answers
//! upload requests from an in-memory object dictionary.

pub mod communication;
pub mod config;
pub mod connect;
pub mod dictionary;
pub mod eds;
pub mod frame;
pub mod logging;
pub mod sdo;
pub mod server;
pub mod text;
