//! Core of a two-peer, lockstep grid game: a fixed-size toroidal board, the
//! snakes that move on it, the length-prefixed binary wire format, and the
//! deterministic per-tick engine with its synchronization barrier.
//!
//! Everything here is pure computation on plain values.  Sockets, the
//! terminal, and the input thread live outside the library and hand values
//! in and out.

pub mod board;
pub mod direction;
pub mod game;
pub mod packet;
pub mod snake;
pub mod util;
