//! Library core of a local-first book browser: scanning of PDF and image-folder
//! libraries, incremental synchronisation plans, category trees, cache naming and
//! configuration handling, each stated and proved with Verus.

pub mod config;
pub mod domain;
pub mod error;
pub mod handlers;
pub mod json;
pub mod paths;
pub mod scanner;
pub mod service;
pub mod sorting;
pub mod text;

use vstd::prelude::*;

verus! {

} // verus!
