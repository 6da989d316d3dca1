//! A registry of achievement records: claims of accomplishment that move from
//! draft to minted to verified under role-gated permissions.
//!
//! [`storage`] is the keyed store that holds the registry's state, [`env`] the
//! environment of one call, [`contract`] the operations, [`model`] the state as
//! a mathematical map, and [`laws`] what holds of every state the operations
//! can reach.
pub mod contract;
pub mod env;
pub mod laws;
pub mod model;
pub mod storage;
pub mod types;

pub use contract::AchievementsContract;
pub use env::Env;
pub use env::Event;
pub use env::Notification;
pub use storage::DataKey;
pub use storage::Storage;
pub use storage::Value;
pub use types::Achievement;
pub use types::Address;
pub use types::Error;
pub use types::Status;
