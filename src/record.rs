//! The log record and the service configuration.

use vstd::prelude::*;
use vstd::string::*;

verus! {

/// One log record as a producer sends it and as the store keeps it.
#[derive(Clone, Debug, PartialEq, Eq)]
pub struct LogMessage {
    pub level: String,
    pub message: String,
    pub target: String,
    /// Module of the producer that emitted the record.
    pub module_name: Option<String>,
    pub file: Option<String>,
    pub line: Option<i64>,
    /// Stream identifier: groups the records of one producer.
    pub hash: String,
    /// RFC 3339 instant.
    pub timestamp: String,
}

/// Startup options of the service.
#[derive(Clone, Debug)]
pub struct Config {
    pub log_db: String,
    pub tcp_listener_ip: String,
    pub tcp_listener_port: u16,
    pub api_server_ip: String,
    pub api_server_port: u16,
    /// Cap on the number of distinct stream identifiers admitted.
    pub max_hashes: usize,
    /// Number of records kept per stream.
    pub max_log_count: usize,
    /// Byte cap on a stored message.
    pub max_log_length: usize,
}

impl Default for Config {
    fn default() -> (c: Config)
        ensures
            c.log_db@ == "logs.db"@,
            c.tcp_listener_ip@ == "127.0.0.1"@,
            c.tcp_listener_port == 5000,
            c.api_server_ip@ == "127.0.0.1"@,
            c.api_server_port == 8000,
            c.max_hashes == 1000,
            c.max_log_count == 10000,
            c.max_log_length == 4096,
    {
        Config {
            log_db: String::from_str("logs.db"),
            tcp_listener_ip: String::from_str("127.0.0.1"),
            tcp_listener_port: 5000,
            api_server_ip: String::from_str("127.0.0.1"),
            api_server_port: 8000,
            max_hashes: 1000,
            max_log_count: 10000,
            max_log_length: 4096,
        }
    }
}

} // verus!
