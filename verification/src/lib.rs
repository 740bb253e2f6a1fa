//! Verified core of a terminal client for Subsonic-compatible music servers
//! (such as Navidrome): configuration handling, the authentication cache,
//! request URLs of the Subsonic API, and the conversion of decoded responses
//! into the client's data model.
pub mod text;
pub mod env;
pub mod expand;
pub mod subsonic;
pub mod client;
pub mod responses;
pub mod transport;
pub mod config;
