//! A small key-value server speaking a Redis-like wire protocol, with a
//! master/replica replication mode.
//!
//! - `parser` decodes a request frame into a `command::RedisCommand`;
//!   `command` encodes commands and replies; `roundtrip` proves that
//!   decoding an encoded command gives it back.
//! - `store` is the expiring key-value store with its expiry index;
//!   `reaper` decides how long the background sweeper sleeps.
//! - `base`, `master` and `slave` answer commands for each role and say which
//!   frames go to the replicas; `handshake` is the replica's handshake with
//!   its master, as a state machine.
//! - `cli`, `types` and `utils` hold the settings, the role and replication
//!   information, and time arithmetic.
//!
//! Sockets, timers and locks are left to the caller: every decision takes the
//! current time and the bytes read as arguments.

pub mod base;
pub mod cli;
pub mod command;
pub mod handshake;
pub mod master;
pub mod parser;
pub mod reaper;
pub mod roundtrip;
pub mod slave;
pub mod store;
pub mod text;
pub mod types;
pub mod utils;
