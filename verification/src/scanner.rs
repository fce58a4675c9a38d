pub mod scanner;
pub mod tokens;

pub use scanner::Scanner;
pub use tokens::{Token, TokenType};
