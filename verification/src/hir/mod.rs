pub mod capture;
pub mod coerce;
pub mod comptime;
pub mod debug;
pub mod error;
pub mod expr;
pub mod field;
pub mod generics;
pub mod lower;
pub mod overload;
pub mod register;
pub mod scan;
pub mod signatures;
pub mod types;

pub use error::Error;
pub use expr::lower;
