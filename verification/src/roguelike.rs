//! The components of the Rusty Roguelike entities.
use vstd::prelude::*;

verus! {

/// A position on the map, in tiles.
#[derive(Clone, Copy, Debug, PartialEq, Eq, Structural)]
pub struct Point {
    pub x: i32,
    pub y: i32,
}

/// A colour, with 8 bits for each of red, green, blue and opacity.
#[derive(Clone, Copy, Debug, PartialEq, Eq, Structural)]
pub struct Rgba8 {
    pub r: u8,
    pub g: u8,
    pub b: u8,
    pub a: u8,
}

/// The foreground and background colours of a glyph.
#[derive(Clone, Copy, Debug, PartialEq, Eq, Structural)]
pub struct ColorPair {
    pub fg: Rgba8,
    pub bg: Rgba8,
}

/// The index of a glyph in the font.
pub type FontCharType = u16;

/// How an entity is drawn: a glyph in a pair of colours.
#[derive(Clone, Copy, Debug, PartialEq, Eq, Structural)]
pub struct Render {
    pub color: ColorPair,
    pub glyph: FontCharType,
}

/// Marks the entity that the player controls.
#[derive(Clone, Copy, Debug, PartialEq, Eq, Structural)]
pub struct Player;

/// The position of an entity.
#[derive(Clone, Copy, Debug, PartialEq, Eq, Structural)]
pub struct PointC(pub Point);

} // verus!
