//! A log collection service core: truncation of messages, the stream
//! admission cache, line framing of the ingestion stream, batching of
//! writes, retention rules, and the date range of the query API.

pub mod admission;
pub mod batch;
pub mod clock;
pub mod framing;
pub mod ingest;
pub mod record;
pub mod retention;
pub mod truncate;

pub use admission::LogStats;
pub use batch::{LogQueue, WriteBatch};
pub use clock::{date_range, default_timestamp, default_timestamp_at, log_info, DateRange, LogInfo};
pub use framing::LineSplitter;
pub use ingest::{accept_record, prepare_record};
pub use record::{Config, LogMessage};
pub use truncate::truncate_string;
