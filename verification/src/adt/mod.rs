//! ABAP Development Tools: object kinds, destinations, errors, request planning
//! and an offline client seeded with fixtures.
pub mod error;
pub mod http;
pub mod mock;
pub mod base64;
pub mod client;
pub mod destination;
pub mod types;
pub mod urlencoding;
pub mod xml;
pub mod laws;
