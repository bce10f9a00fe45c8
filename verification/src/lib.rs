pub mod bookmarks;
pub mod error;
pub mod idb;
pub mod refs;

pub use error::IDAError;
pub use idb::{Address, BADADDR, IDB};
