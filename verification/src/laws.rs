//! What holds of the registry as a whole.
pub mod calls;
pub mod commits;
pub mod escaping;
pub mod files;
pub mod lookups;
pub mod packages;
pub mod partials;
pub mod rendering;
pub mod replies;
pub mod reports;
pub mod serving;
pub mod state;
pub mod texts;
