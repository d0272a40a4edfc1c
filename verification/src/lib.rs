//! Game-server logic of an airmash server: command handling for upgrades,
//! the clean-up after a kill, the reaction to a failed login, the routing of
//! outgoing messages to connections, and the hand-off of delayed timer events.
//!
//! The entity-component storages, event channels and connection table that
//! the systems read and write are modelled by the types in `storage` and
//! `connection`; the program around the library converts to and from them.

pub mod ids;
pub mod storage;
pub mod upgrade;
pub mod connection;
pub mod killed_cleanup;
pub mod login_fail;
pub mod poll_complete;
pub mod future;
pub mod laws;
pub mod delayed;
