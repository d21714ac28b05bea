//! Memory utilities: the reserved address range, the arena that hands out its
//! slots, and the pools built on arenas.

pub mod arena;
pub mod handle;
pub mod handle_array;
pub mod layout;
pub mod pool;
pub mod region;
