//! Core of a small side-scrolling helicopter game: a generation-checked entity
//! registry, a player controller with a discrete state machine, a projectile
//! manager and a follow camera, all over integer fixed-point geometry.
pub mod geom;
pub mod handle;
pub mod bullets;
pub mod player;
pub mod camera;
pub mod layers;
pub mod scene;
pub mod bullet;
