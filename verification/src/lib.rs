//! A bulk data-retrieval client for a quota-limited market-data
//! service. A logical query (identifiers, fields, an optional date
//! range and frequency) is split into physical sub-requests that
//! respect the service's per-request limits, each sub-request is
//! retried and — for the asynchronous family — polled through its
//! ticket, and the per-chunk results are merged back into one table,
//! reconciling differing column sets by diagonal stacking.

pub mod connection;
pub mod datagrid;
pub mod dates;
pub mod jsontext;
pub mod strutil;
pub mod table;
pub mod timeseries;
pub mod utils;
