//! Verified core of a generator that turns project character lists and a
//! font into compact 4-bit alpha bitmap tables for microcontroller firmware.

pub mod alpha;
pub mod chars;
pub mod error;
pub mod font;
pub mod model;
pub mod output;
pub mod text;
pub mod cli;
pub mod config;
