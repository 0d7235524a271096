//! The front ends a game can run under, and what each of them lets the
//! player do from the menu.

use vstd::prelude::*;

pub mod private;

verus! {

/// A front end. The set is closed: only the types of this module are front ends.
pub trait Frontend: private::Sealed + Copy {
    /// Whether the player can leave the program from the menu.
    fn can_quit() -> bool;

    /// Whether the player can save the game from the menu.
    fn can_save_from_menu() -> bool;
}

/// A window of its own.
#[derive(Debug, Clone, Copy)]
pub struct Glutin;

/// A terminal.
#[derive(Debug, Clone, Copy)]
pub struct Unix;

/// A page in a browser, which can be neither left nor saved from.
#[derive(Debug, Clone, Copy)]
pub struct Wasm;

impl private::Sealed for Glutin {

}

impl private::Sealed for Unix {

}

impl private::Sealed for Wasm {

}

impl Frontend for Glutin {
    fn can_quit() -> (r: bool)
        ensures
            r,
    {
        true
    }

    fn can_save_from_menu() -> (r: bool)
        ensures
            r,
    {
        true
    }
}

impl Frontend for Unix {
    fn can_quit() -> (r: bool)
        ensures
            r,
    {
        true
    }

    fn can_save_from_menu() -> (r: bool)
        ensures
            r,
    {
        true
    }
}

impl Frontend for Wasm {
    fn can_quit() -> (r: bool)
        ensures
            !r,
    {
        false
    }

    fn can_save_from_menu() -> (r: bool)
        ensures
            !r,
    {
        false
    }
}

} // verus!
