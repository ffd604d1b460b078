pub mod store;
pub mod dispatch;
pub mod laws;
