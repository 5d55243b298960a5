//! Game and dialogue logic of three small terminal programs: a tree house
//! doorman, a flappy dragon and a ray caster.
pub mod arith;
pub mod flappy;
pub mod geometry;
pub mod keys;
pub mod random;
pub mod raycaster;
pub mod text;
pub mod tree_house;
