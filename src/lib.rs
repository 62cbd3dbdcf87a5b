//! File selection for the compaction of time-series storage partitions.
use vstd::prelude::*;

pub mod http;
pub mod metrics;
pub mod parquet_file;
pub mod parquet_file_filtering;
pub mod selection;
pub mod selection_laws;
