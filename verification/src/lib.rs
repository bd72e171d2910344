//! A falling-block puzzle on a fixed occupancy grid: one controlled block
//! drops one row per tick, locks when it can no longer move, and the match
//! ends once a locked block reaches the spawn row.

#![allow(unused_imports)]

pub mod block;
pub mod color;
pub mod grid;
pub mod placement;
pub mod render;
pub mod scheduler;
pub mod session;
