//! Verified building blocks of tunnel example programs: command-line option
//! lookup and the request plugins (metrics, path blocking, header filtering,
//! IP blocking), plus the decisions the example programs make between I/O steps.

pub mod args;
pub mod action;
pub mod metrics;
pub mod path_blocker;
pub mod ip_blocklist;
pub mod headers;
pub mod header_filter;
pub mod options;
pub mod echo;
pub mod tls;
pub mod decimal;
pub mod request;
