//! Services of the library: database synchronisation plans, asset cache naming, and
//! process restart policy.

pub mod assets;
pub mod database;
pub mod restart;
pub mod resync;
pub mod schema;
pub mod sync;
