//! Control of KeepSmile KS05 floor lamps over Bluetooth low energy.
//!
//! The library holds what the lamp is told and what it answers, what is kept
//! between runs, how the lamp is found among the objects that BlueZ manages,
//! and the decisions that a run takes. Apart from reading the clock it does no
//! input or output: whoever drives it carries out what it asks for and hands back
//! what came of it.
//!
//! - [`text`], [`number`], [`hex`], [`textmap`], [`text_laws`]: texts and numbers;
//! - [`error`]: what can go wrong, and what is said about it;
//! - [`packet`], [`packet_laws`], [`command`], [`command_laws`]: packets, and the
//!   commands that they carry out;
//! - [`config`], [`cache`], [`cache_laws`], [`record_laws`], [`clock`]: settings, the
//!   stored state, and the time at which it was stored;
//! - [`bluez`], [`bluez_laws`], [`device_laws`]: the objects that BlueZ manages;
//! - [`retry`], [`attempt`]: how often a job is attempted, and in which phases;
//! - [`search`], [`connect`], [`write`], [`listen`]: the phases themselves, each
//!   as a machine that says what is to be done next;
//! - [`run_laws`]: what holds of these machines, step by step.

pub mod attempt;
pub mod bluez;
pub mod bluez_laws;
pub mod cache;
pub mod cache_laws;
pub mod clock;
pub mod command;
pub mod command_laws;
pub mod config;
pub mod connect;
pub mod device_laws;
pub mod error;
pub mod hex;
pub mod listen;
pub mod number;
pub mod packet;
pub mod packet_laws;
pub mod record_laws;
pub mod retry;
pub mod run_laws;
pub mod search;
pub mod text;
pub mod text_laws;
pub mod textmap;
pub mod write;
