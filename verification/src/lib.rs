//! NetSentry: a monitor of the local network connection.
//!
//! This library holds what the monitor decides: how settings are repaired and checked,
//! how log lines are written and read back, what a periodic network check records, which
//! asset paths and API requests the embedded web service accepts, how the access token is
//! written, and what the tray menu offers. Waiting, probing the network, files, the web
//! server and the window belong to the application around it.
use vstd::prelude::*;

pub mod i18n;
pub mod logfile;
pub mod logline;
pub mod net;
pub mod settings;
pub mod status;
pub mod text;
pub mod token;
pub mod tray;
pub mod update;
pub mod web;

verus! {
}
