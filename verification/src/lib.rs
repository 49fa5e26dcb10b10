//! Small verified components: a vending machine with its change-making, and
//! beside it containers, typed lifecycles and parsers of the same kind.

pub mod vending;
pub mod stack;
pub mod list;
pub mod error;
pub mod moderation;
pub mod models;
pub mod sourcing;
pub mod conf;
pub mod guess;
pub mod pattern;
pub mod format_spec;
pub mod email;
pub mod duration;
pub mod trinity;
pub mod chance;
pub mod secrets;
pub mod facts;
pub mod random;
pub mod age;
pub mod logs;
pub mod repo;
pub mod conf_path;
pub mod storage;
pub mod polyline;
pub mod matrix;
