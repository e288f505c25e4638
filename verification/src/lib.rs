//! Core logic of the CARVE attack-defense competition platform.
use vstd::prelude::*;

pub mod api;
pub mod boxes;
pub mod checks;
pub mod cloud_init;
pub mod competition;
pub mod config;
pub mod console;
pub mod flags;
pub mod keys;
pub mod model;
pub mod network;
pub mod random;
pub mod ranking;
pub mod scheduler;
pub mod scoring;
pub mod sorting;
pub mod support;
pub mod templating;
pub mod text;
pub mod users;
pub mod validation;
pub mod vm;
