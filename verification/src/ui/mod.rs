pub mod types;
pub mod input;
pub mod mouse;
pub mod all_files;
pub mod app;
pub mod deletion;
pub mod events;
