//! Team-and-membership registry for study groups formed within a guild.
//!
//! The library holds the records (students, teams, per-guild team metadata),
//! the identifier allocator with slot reuse, and the invitation / join / leave
//! workflows, each with a contract stated over the records' views.

pub mod credentials;
pub mod error;
pub mod guild;
pub mod laws;
pub mod passwords;
pub mod replies;
pub mod request;
pub mod student;
pub mod teamdump;
pub mod team;
pub mod text;
pub mod textmap;
pub mod utils;
pub mod workflow;
