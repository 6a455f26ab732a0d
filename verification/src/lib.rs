pub mod text;
pub mod paths;
pub mod models;
pub mod analyzer;
pub mod clock;
pub mod sorting;
pub mod scanner;
pub mod web;
pub mod rollup;
pub mod ui;
