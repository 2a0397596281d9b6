//! Country lookup for IP addresses over a MaxMind DB image.
//!
//! [`resolve_country`] takes the text of an address from its caller to a
//! [`CountryResult`]: it parses the text ([`parse_address`]), takes the
//! opened database from a [`SharedCacheSlot`], which opens it on first use
//! and keeps it for good, looks the address up ([`DatabaseHandle::lookup`])
//! and folds what comes back into found, not found, or an error.
//!
//! The grammar of addresses is stated in [`address`], [`ipv4`] and [`ipv6`],
//! and the parser is proved to read exactly that grammar. The database
//! itself is read by the `maxminddb` crate: [`database`] states what is
//! taken on trust from it, and everything around those calls is proved
//! against that.
//!
//! The crate does no input or output and holds no global state. A caller
//! reads the image from its file, decides where the slot lives, and puts a
//! lock around the slot where threads share it ([`resolve_through`]).

pub mod address;
pub mod cache;
pub mod database;
pub mod ipv4;
pub mod ipv6;
pub mod resolve;
pub mod text;

pub use address::{parse_address, ParsedAddress};
pub use cache::SharedCacheSlot;
pub use database::{CountryRecord, DatabaseHandle, LookupError, OpenError};
pub use resolve::{
    lookup_country, normalize, resolve_country, resolve_through, resolve_with, CountryResult,
    HostReply, ResolveError,
};
