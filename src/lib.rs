//! A first-person grid raycaster: ray marching through a cell map, per-column
//! wall projection into a pixel surface, and depth-tested sprite compositing.
//!
//! All geometry is integer arithmetic. Positions are world units, directions
//! are unit vectors in fixed point (`player::ONE` stands for 1.0) and the
//! field of view is carried as the fixed-point tangent of its half angle.

pub mod color;
pub mod framebuffer;
pub mod maze;
pub mod player;
pub mod caster;
pub mod texture;
pub mod fixed;
pub mod projection;
pub mod sprites;
pub mod minimap;
