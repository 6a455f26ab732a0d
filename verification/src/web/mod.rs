pub mod types;
pub mod results;
pub mod actions;
