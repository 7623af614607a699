//! Plain records that cross the boundaries of the core: what the HTTP
//! interfaces carry and what the stores hold.

pub mod api;
pub mod data;
