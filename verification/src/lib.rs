use vstd::prelude::*;

pub mod block_spin;
pub mod critical_surface;
pub mod fixed_point;
pub mod flow;
pub mod linalg;
pub mod scaling;
pub mod universality;
