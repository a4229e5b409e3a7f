//! Retires torrents whose content already lives, hard-linked, in a media library.
//!
//! The library holds the reconciliation logic: an identity index of the media
//! library, the eligibility filter over the download client's torrent list, the
//! match engine, and the removal executor's decisions. Reading the disk and
//! talking to the download client are left to the caller.

pub mod config;
pub mod identity;
pub mod index;
pub mod inventory;
pub mod matching;
pub mod paths;
pub mod removal;
