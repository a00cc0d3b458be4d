//! Where session data is stored: the ClickHouse server and its tables.
use vstd::prelude::*;

verus! {

/// The ClickHouse server that session data is written to, and the tables
/// that receive the measurements, the session metadata and the device
/// metadata.
pub struct ClickhouseServer {
    pub server: String,
    pub port: String,
    pub database: String,
    pub username: String,
    pub password: String,
    pub measurement_table: String,
    pub session_meta_table: String,
    pub device_meta_table: String,
}

} // verus!
