//! Core of an interactive terminal front-end: it classifies terminal input
//! events into a small vocabulary of logical keys, drives a strict 1:1
//! request/response exchange with a backend for every recognized key, and
//! renders each returned UI description as a single line with a cursor marker.
//!
//! The surrounding binary owns the actual terminal and the pipes to the
//! backend process; everything here works on plain values, so the whole
//! protocol core is verified.

pub mod errors;
pub mod input;
pub mod protocol;
pub mod render;
