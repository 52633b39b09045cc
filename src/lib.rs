pub mod text;
pub mod extract;
pub mod coordinator;
pub mod store;
pub mod query;
pub mod model;
pub mod files;
