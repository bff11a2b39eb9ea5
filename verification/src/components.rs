//! The components that an entity can hold.

use vstd::prelude::*;

verus! {

/// A cell of the screen: column `x` of row `y`.
#[derive(Clone, Copy, Debug, PartialEq, Eq, Structural)]
pub struct Position {
    pub x: i32,
    pub y: i32,
}

/// A color by its red, green and blue parts, each in thousandths of its
/// full strength: 0 is none of it, 500 is half, 1000 is all. More than
/// 1000 is shown as 1000.
#[derive(Clone, Copy, Debug, PartialEq, Eq, Structural)]
pub struct Color {
    pub r: u16,
    pub g: u16,
    pub b: u16,
}

impl Color {
    /// The background of everything that is drawn.
    pub fn black() -> (c: Color)
        ensures
            c == (Color { r: 0, g: 0, b: 0 }),
    {
        Color { r: 0, g: 0, b: 0 }
    }

    /// The color of floor: half of each part.
    pub fn grey() -> (c: Color)
        ensures
            c == (Color { r: 500, g: 500, b: 500 }),
    {
        Color { r: 500, g: 500, b: 500 }
    }

    /// The color of walls: all of green.
    pub fn green() -> (c: Color)
        ensures
            c == (Color { r: 0, g: 1000, b: 0 }),
    {
        Color { r: 0, g: 1000, b: 0 }
    }

    /// The color of the player: all of red and green.
    pub fn yellow() -> (c: Color)
        ensures
            c == (Color { r: 1000, g: 1000, b: 0 }),
    {
        Color { r: 1000, g: 1000, b: 0 }
    }
}

/// The glyph of code page 437 that stands for a character.
pub uninterp spec fn cp437(c: char) -> u16;

/// `rltk::to_cp437`: the number of the character in code page 437, as the
/// outside crate's table gives it. Of the table's entries the contract
/// spells out the three that the game draws: 46 for the dot, 35 for the
/// hash and 64 for the at sign.
#[verifier::external_body]
pub(crate) fn to_cp437(c: char) -> (glyph: u16)
    ensures
        glyph == cp437(c),
        c == '.' ==> glyph == 46,
        c == '#' ==> glyph == 35,
        c == '@' ==> glyph == 64,
{
    rltk::to_cp437(c)
}

/// How an entity is drawn: a glyph of code page 437 and two colors.
#[derive(Clone, Copy, Debug, PartialEq, Eq, Structural)]
pub struct Renderable {
    pub glyph: u16,
    pub fg: Color,
    pub bg: Color,
}

impl Renderable {
    /// The appearance that shows the character `c` in `fg` on `bg`. The
    /// glyph of the at sign is 64.
    pub fn new(c: char, fg: Color, bg: Color) -> (r: Renderable)
        ensures
            r == (Renderable { glyph: cp437(c), fg, bg }),
            c == '@' ==> r.glyph == 64,
    {
        Renderable { glyph: to_cp437(c), fg, bg }
    }
}

/// A component together with its value. `Player` marks the entity that the
/// keys move, `LeftMover` one that drifts to the left by itself.
#[derive(Clone, Copy, Debug, PartialEq, Eq, Structural)]
pub enum Component {
    Position(Position),
    Renderable(Renderable),
    Player,
    LeftMover,
}

/// The type of a component.
#[derive(Clone, Copy, Debug, PartialEq, Eq, Structural)]
pub enum ComponentKind {
    Position,
    Renderable,
    Player,
    LeftMover,
}

/// One call of the screen's `set`: a glyph in two colors at a cell.
#[derive(Clone, Copy, Debug, PartialEq, Eq, Structural)]
pub struct DrawCall {
    pub x: i32,
    pub y: i32,
    pub fg: Color,
    pub bg: Color,
    pub glyph: u16,
}

} // verus!
