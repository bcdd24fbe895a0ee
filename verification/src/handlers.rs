//! What the HTTP endpoints compute from stored rows and requests: response shapes,
//! paging, configuration updates and scan reports.  Serving them stays with the
//! caller.

pub mod books;
pub mod categories;
pub mod config;
pub mod system;
pub mod user_data;
