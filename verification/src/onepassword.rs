pub mod id;
pub mod types;
