use vstd::prelude::*;

pub mod action;
pub mod condition;
pub mod config;
pub mod counter;
pub mod engine;
pub mod params;
pub mod ring_buffer;
pub mod rule;
pub mod touch;
