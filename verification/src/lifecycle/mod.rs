pub mod audit;
pub mod audit_laws;
pub mod cycle_laws;
pub mod daily;
pub mod review;
pub mod review_laws;
pub mod telling_laws;
