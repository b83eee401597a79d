//! A network port scanner library: validated port types, probing-strategy
//! decision logic, raw SYN frame construction and parsing, a token-bucket
//! rate limiter, and report aggregation, all with verified contracts.

pub mod banner;
pub mod checksum;
pub mod error;
pub mod net;
pub mod orchestrator;
pub mod parse;
pub mod packet;
pub mod port;
pub mod profile;
pub mod rate_limiter;
pub mod report;
pub mod result;
pub mod scan_id;
pub mod services;
pub mod syn;
pub mod tcp;
pub mod text;
pub mod udp;
