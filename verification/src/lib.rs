//! Settings synchronization and notification core for a desktop theme toggle.
//!
//! The crate models the pieces that keep a persistent hierarchical
//! configuration store, the live desktop shell, and a tray-resident control
//! point consistent with each other:
//!
//! - [`hive`] resolves short textual root identifiers to store roots;
//! - [`store`] is the typed accessor over the hive-addressed key/value store;
//! - [`notify`] plans the system-wide "settings changed" broadcast;
//! - [`tray`] is the state machine behind the tray icon's click handling;
//! - [`commands`] is the validated command surface offered to the front end.
//!
//! The OS wiring (the real registry, the shell broadcast, the tray icon) is
//! platform work that lives outside this crate; here every operation is
//! specified and proved over a plain model of the store and the window state.

pub mod commands;
pub mod errors;
pub mod hive;
pub mod notify;
pub mod store;
pub mod tray;
