//! Runtime core of a two-dimensional scene graph whose entities are driven by
//! Lua scripts.
//!
//! Every entity has two representations: a typed native one, used for layout
//! and overlap queries, and a dynamic snapshot that scripts read and change
//! once per lifecycle hook.  The modules below keep the two consistent.

pub mod children_container;
pub mod color;
pub mod command;
pub mod console;
pub mod engine;
pub mod entity;
pub mod error;
pub mod image;
pub mod input;
pub mod kind;
pub mod lua;
pub mod luable;
pub mod marshal;
pub mod nodelike;
pub mod nodes;
pub mod read_back;
pub mod round_trip;
pub mod scalar;
pub mod script_manager;
pub mod text;
pub mod transform;
pub mod variant;
pub mod vec2;
pub mod window;
