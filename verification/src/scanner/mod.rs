pub mod utils;
pub mod classify;
pub mod skip;
pub mod dir_calculator;
pub mod walk;
pub mod scanner;
pub use scanner::Scanner;
pub use utils::get_system_warning;
