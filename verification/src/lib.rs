//! A data-driven hierarchical animation state machine.
//!
//! The interpreter ([`machine`]) keeps a stack of nested animation states
//! ([`state`]), evaluates the guards ([`guard`]) of the current state against
//! a set of named variables ([`context`]) and carries out the transition
//! ([`command`], [`transition`]) of the first guard that holds. What it runs
//! is a definition ([`definition`]). Its laws are proved in [`laws`].
//!
//! Beside it stand what the playback of a character needs: the records of a
//! skeleton file and the stepping of a clip ([`skeleton`]), the paths of the
//! files of a character ([`assets`]), and a fixed controller for a walking
//! and jumping character ([`controller`]).

pub mod assets;
pub mod command;
pub mod context;
pub mod controller;
pub mod definition;
pub mod guard;
pub mod laws;
pub mod machine;
pub mod skeleton;
pub mod state;
pub mod table;
pub mod transition;
