pub mod error;
pub mod type_checker;

pub use error::Error;
