//! Management core for a reverse-proxy site directory layout: a registry of
//! reusable host suffixes and proxy targets persisted as a TOML document, and
//! a state machine over the `sites-enabled` / `sites-disabled` directories.

pub mod codec;
pub mod numerals;
pub mod options;
pub mod order;
pub mod registry;
pub mod sites;
