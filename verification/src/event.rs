//! Input events as the widgets of this crate see them.

use vstd::prelude::*;
use crate::geometry::Point;

verus! {

/// What a pointer did.
#[derive(Clone, Copy, Debug, PartialEq, Eq, Structural)]
pub enum PointerKind {
    Move,
    Enter,
    Leave,
    Down,
    Up,
    Wheel,
}

/// A pointer event at an absolute position.
#[derive(Clone, Copy, Debug, PartialEq, Eq, Structural)]
pub struct PointerEvent {
    pub kind: PointerKind,
    pub pos: Point,
}

/// Keys that widgets of this crate react to; every other key is `Other`.
#[derive(Clone, Copy, Debug, PartialEq, Eq, Structural)]
pub enum Key {
    Enter,
    Space,
    Up,
    Down,
    Left,
    Right,
    Tab,
    Escape,
    Other,
}

/// A key going down (`pressed`) or up.
#[derive(Clone, Copy, Debug, PartialEq, Eq, Structural)]
pub struct KeyEvent {
    pub key: Key,
    pub pressed: bool,
}

/// An input event.
#[derive(Clone, Copy, Debug, PartialEq, Eq, Structural)]
pub enum Event {
    Pointer(PointerEvent),
    Key(KeyEvent),
    /// Text input, focus changes and the other events these widgets ignore.
    Other,
}

/// Mouse cursor shape a widget asks for.
#[derive(Clone, Copy, Debug, PartialEq, Eq, Structural)]
pub enum CursorShape {
    Arrow,
    Hand,
}

} // verus!
