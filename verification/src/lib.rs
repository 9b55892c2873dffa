//! A Game of Life engine on a finite grid, with bounded or toroidal edges and
//! a stop condition that fires when a recently seen generation comes back.

pub mod board;
pub mod rules;
pub mod history;
pub mod game;
pub mod detection;
pub mod patterns;
pub mod random;
