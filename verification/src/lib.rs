//! Verified core of an MCP server for the EODHD financial-data API: the
//! JSON model it works on, periodic-table slicing, response framing,
//! request validation, cache keys and lifetimes, and scorecard helpers.

pub mod text;
pub mod json;
pub mod normalization;
pub mod format;
pub mod table;
pub mod cache;
pub mod compare;
pub mod financials;
pub mod health_check;
pub mod options;
pub mod paging;
pub mod requests;
pub mod calls;
pub mod types;
pub mod snapshot;
