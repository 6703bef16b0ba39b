//! The concrete kinds of entity.

pub mod button;
pub mod camera;
pub mod clickable_area;
pub mod collider;
pub mod node;
pub mod rectmesh;
pub mod soundplayer;
pub mod sprite;
pub mod text;
