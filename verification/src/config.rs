//! Connection settings for the two stores, as plain values.
//!
//! The values are read from a configuration file by the surrounding
//! application; the library only holds and interprets them.

use vstd::prelude::*;

verus! {

/// Destination store settings.
#[derive(Clone, Debug)]
pub struct InfluxDB {
    pub influx_server: String,
    pub influx_port: Option<u16>,
    pub influx_bucket: String,
    pub influx_org: String,
    pub influx_token: String,
}

/// Source store settings, with the list of logical tables to synchronize.
#[derive(Clone, Debug)]
pub struct PostgreSQL {
    pub zabbix_server: Vec<String>,
    pub zabbix_port: Option<u16>,
    pub zabbix_username: String,
    pub zabbix_password: String,
    pub zabbix_tables: Vec<String>,
}

/// The destination port that applies when none is configured.
pub const DEFAULT_INFLUX_PORT: u16 = 8086;

impl InfluxDB {
    /// The configured destination port, or the default when absent.
    pub fn port_or_default(&self) -> (p: u16)
        ensures
            p == (match self.influx_port {
                Some(q) => q,
                None => DEFAULT_INFLUX_PORT,
            }),
    {
        match self.influx_port {
            Some(q) => q,
            None => DEFAULT_INFLUX_PORT,
        }
    }
}

} // verus!
