//! Instance resolution and group operations for a fleet of cloud compute
//! instances: name lookup, group membership, start/stop dispatch and the
//! text shown to the operator.

pub mod command;
pub mod config;
pub mod directory;
pub mod dispatch;
pub mod failure;
pub mod group;
pub mod instance;
pub mod present;
pub mod resolve;
pub mod text;
