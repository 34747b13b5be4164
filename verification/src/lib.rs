use vstd::prelude::*;

pub mod text;
pub mod sorting;
pub mod paths;
pub mod backend;
pub mod ui;
