//! Committee registry backend.
//!
//! Committees are added, renamed and soft-deleted through write paths that
//! keep full names and short names unique among the active ones, by reading
//! the whole active set back after each change and undoing the change on a
//! collision. Users are looked up by identity. Outcomes go out as JSON
//! replies with stable error codes.
//!
//! - [`model`]: the committee table as mathematics, and what each write path
//!   makes of it.
//! - [`write_path`]: the write paths as a protocol with storage, one decision
//!   at a time.
//! - [`table`]: the committee table held in memory.
//! - [`db`]: records, failures, and the write paths run on that table.
//! - [`facts`], [`laws`]: what holds of listings and of the write paths.
//! - [`api`]: the replies of the HTTP facade.
//! - [`page`]: the demo page.
//! - [`util`]: duplicate detection.

pub mod api;
pub mod db;
pub mod facts;
pub mod laws;
pub mod model;
pub mod page;
pub mod table;
pub mod util;
pub mod write_path;
