//! A live win counter shared between a control surface and passive overlays.
//!
//! The crate holds the rules of the counter, each with its contract, and
//! does no I/O of its own:
//!
//! - [`state`]: the counter record and the one path by which it changes;
//! - [`preset`]: the named snapshots of the record, at most ten, `Default`
//!   always among them;
//! - [`hotkey`], [`shortcut`], [`tracker`]: the hotkey bindings, their
//!   registration with the host, and the edge detection that turns a held
//!   combination into one action;
//! - [`hub`], [`connection`], [`frame`]: the fan-out of snapshots to display
//!   clients, the life of one client's connection, and the control frames
//!   that clients send back;
//! - [`engine`]: the command surface that ties these together and says
//!   which effects its owner has to carry out, and in which order;
//! - [`http`]: what to answer to requests for the overlay page;
//! - [`license`], [`promptpay`], [`security`], [`update`]: what is decided
//!   about licenses, payments, the security monitor and updates;
//! - [`json`], [`text`]: reading members of JSON documents, and helpers
//!   over text.

pub mod connection;
pub mod engine;
pub mod frame;
pub mod hotkey;
pub mod http;
pub mod hub;
pub mod json;
pub mod license;
pub mod preset;
pub mod promptpay;
pub mod security;
pub mod shortcut;
pub mod state;
pub mod text;
pub mod tracker;
pub mod update;
