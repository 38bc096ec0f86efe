//! A fixed-point 2D physics core for platformer games: constant and pairwise
//! gravity, integration with damping, rotated bounding-box collision
//! detection, and a jump / wall-attach player controller.
pub mod fixed;
pub mod body;
pub mod player;
pub mod collision;
pub mod forces;
pub mod integrate;
pub mod world;
