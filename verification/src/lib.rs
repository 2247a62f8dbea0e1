//! Verified core of a small OBD2 dashboard: the ELM327 reply parsing, the
//! reading snapshot and its freshness rules, the serial-link supervisor and
//! the power-loss watcher's decision logic.
#![allow(unused_imports)]

pub mod text;
pub mod hex;
pub mod obd;
pub mod snapshot;
pub mod power;
pub mod link;
pub mod elm;
pub mod ui;
