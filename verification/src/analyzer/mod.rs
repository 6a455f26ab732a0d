pub mod category;
pub mod rules;
pub mod analysis;
pub mod recommend;
