//! Postgres change-data-capture replication: wire decoding into a typed row
//! model, batching of item streams, and the phased copy/stream orchestration.
pub mod text;
pub mod quoting;
pub mod numeric;
pub mod table;
pub mod timestamp;
pub mod table_row;
pub mod cell;
pub mod cdc_event;
pub mod batching;
pub mod pipeline;
pub mod configuration;
pub mod records;
