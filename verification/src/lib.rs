use vstd::prelude::*;

pub mod outputs;
pub mod pet;
pub mod ppm;
pub mod render;
