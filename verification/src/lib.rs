//! Verified core of an animation asset manager: frame ranges, frame naming, export
//! planning, DCC import scripts and the text handling around them.
use vstd::prelude::*;

pub mod text;
pub mod paths;
pub mod models;
pub mod dcc;
pub mod services;
pub mod commands;
