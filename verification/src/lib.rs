//! A small CRUD service core: Basic-Auth credential extraction, a bounded
//! connection pool, an entity repository with its update/delete rules, a
//! startup migration gate, and the dispatcher that maps outcomes to HTTP
//! statuses.

pub mod auth;
pub mod codec;
pub mod dispatch;
pub mod migrate;
pub mod model;
pub mod pool;
pub mod repo;

use vstd::prelude::*;

verus! {

} // verus!
