//! Tiered deployment of renderer material files, with an expiring content
//! cache and a ledger of what is installed where.

pub mod archive;
pub mod batch;
pub mod cache;
pub mod clock;
pub mod command;
pub mod deeplink;
pub mod discovery;
pub mod engine;
pub mod file_store;
pub mod keyed;
pub mod ledger;
pub mod locator;
pub mod options;
pub mod packs;
pub mod path;
pub mod text;
