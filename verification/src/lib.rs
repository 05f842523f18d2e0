//! Device and firmware state reconciliation for a USB music instrument.
//!
//! Text from the discovery tool goes through the streaming parser
//! ([`parser`], [`json`]) and comes out as descriptors ([`entry`]); the
//! descriptors change the registry of tracked devices ([`registry`],
//! [`device`]), whose content has a digest ([`digest`], [`faithful`]); the
//! device that is followed and the flashing status give the consolidated
//! state ([`state`]). A flashing attempt is a state machine ([`session`])
//! over the decisions of [`firmware`] and [`download`]. Bytes from the
//! instrument's serial line go through the frame decoder ([`slip`]).

pub mod device;
pub mod digest;
pub mod download;
pub mod entry;
pub mod events;
pub mod faithful;
pub mod firmware;
pub mod json;
pub mod order;
pub mod parser;
pub mod registry;
pub mod serial;
pub mod session;
pub mod slip;
pub mod state;
pub mod text;
pub mod tycmd;
