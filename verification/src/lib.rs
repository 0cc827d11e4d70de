//! A document catalogue: files are fingerprinted by content and reconciled
//! against a store that keeps one entry per distinct content digest.

pub mod annotate;
pub mod catalogue_database;
pub mod fingerprint;
pub mod listing;
pub mod models;
pub mod reconciliation;
pub mod scan;
pub mod traverse;

pub use annotate::annotate;
pub use annotate::list_records;
pub use models::Config;
pub use scan::scan;
