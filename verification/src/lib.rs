pub mod model;
pub mod store;
pub mod walk;
pub mod engine;
pub mod backup;
pub mod queries;
pub mod laws;
