//! Posts that pass through moderation, each held in a type that tells how
//! far it has come.

pub mod states;
pub mod post;
pub mod user;
