pub mod daily_analysis;
pub mod record_laws;
