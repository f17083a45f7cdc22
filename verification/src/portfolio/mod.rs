pub mod book_laws;
pub mod metrics;
pub mod snapshot_laws;
pub mod state;
pub mod targets;
