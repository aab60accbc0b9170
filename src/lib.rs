//! Classification of web-server access-log lines as bot traffic, by
//! signatures on the request target and on the User-Agent header.

pub mod clock;
pub mod nginx;
pub mod signatures;
pub mod text;

pub use nginx::parse;
