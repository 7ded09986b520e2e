//! Passive subdomain discovery: verified enumeration core.
//!
//! Given a registrable domain, a set of public data sources is queried for
//! hostnames observed under that domain. This crate holds the verified core:
//! the per-source query construction and response extraction, and the
//! retry/backoff/progress state machine that drives one source through a
//! bounded sequence of rounds.

use vstd::prelude::*;

pub mod alienvault;
pub mod baidu;
pub mod bing;
pub mod cli;
pub mod crtsh;
pub mod dnsdumpster;
pub mod domains;
pub mod enumerate;
pub mod extract;
pub mod google;
pub mod hackertarget;
pub mod json;
pub mod rapiddns;
pub mod request;
pub mod text;
pub mod virustotal;
pub mod yahoo;

verus! {

/// Give up after this many retries.
pub const MAX_RETRIES: u8 = 10;

/// Give up once the backoff delay reaches this many seconds.
pub const MAX_BACKOFF: u8 = 16;

} // verus!
