pub mod bundle;
pub mod config;
pub mod error;
pub mod process;
pub mod state;

pub use error::{Error, ErrorKind};
