pub mod decimal;
pub mod error;
pub mod literal;
pub mod number;
pub mod text;

pub use error::Error;
pub use literal::Literal;
pub use number::Number;
