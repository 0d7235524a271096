//! The measures of what the interface draws around the map.

use vstd::prelude::*;
use crate::colour::Rgb24;
use crate::geometry::{Coordinate, GridSize};

verus! {

/// The width and height of a card on the screen, in cells.
pub const CARD_WIDTH: u32 = 8;

pub const CARD_HEIGHT: u32 = 10;

/// The most hand slots that are ever drawn.
pub const MAX_NUM_CARDS: usize = 8;

/// A framed box with a line of text in it.
#[derive(Clone, Copy, Debug, PartialEq, Eq, Structural)]
pub struct FramedLabel {
    /// The extent of what the frame encloses.
    pub inner_size: GridSize,
    /// The colour of the frame and of the text.
    pub foreground: Rgb24,
    /// Where the text starts, relative to the corner of what the frame encloses.
    pub label_offset: Coordinate,
}

/// The drawing of a hand slot that the player has not unlocked: a grey frame
/// one cell smaller than a card each way, with its label on the fifth line.
pub fn locked_card_view() -> (view: FramedLabel)
    ensures
        view.inner_size == (GridSize { width: 7, height: 9 }),
        view.foreground == (Rgb24 { r: 128, g: 128, b: 128 }),
        view.label_offset == (Coordinate { x: 0, y: 4 }),
{
    FramedLabel {
        inner_size: GridSize::new(CARD_WIDTH - 1, CARD_HEIGHT - 1),
        foreground: Rgb24::grey(128),
        label_offset: Coordinate::new(0, 4),
    }
}

/// The text in the frame of a locked hand slot.
pub fn locked_label() -> (label: &'static str)
    ensures
        label@ == "Locked"@,
{
    "Locked"
}

/// Where the `slot`-th card of the hand is drawn, relative to the corner of
/// the card area: cards stand side by side, one cell apart, below their numbers.
pub fn card_offset(slot: usize) -> (offset: Coordinate)
    requires
        slot < MAX_NUM_CARDS,
    ensures
        offset.x == slot * (CARD_WIDTH + 1),
        offset.y == 1,
{
    Coordinate::new((slot as u32 * (CARD_WIDTH + 1)) as i32, 1)
}

} // verus!
