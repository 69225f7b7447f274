//! Verified game logic for several classic games: the Catacomb II
//! engine (sound, random numbers, input decoding, data formats), the
//! Cavern platformer, and the Rusty Roguelike components.
#![allow(non_snake_case, non_camel_case_types, non_upper_case_globals)]

pub mod catacomb_ii;
pub mod cavern;
pub mod int_math;
pub mod roguelike;
