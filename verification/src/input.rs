//! The device's buttons.
use vstd::prelude::*;

verus! {

#[derive(Clone, Copy, Debug, PartialEq, Eq, Structural)]
pub enum Buttons {
    Back,
    Confirm,
    Left,
    Right,
    Up,
    Down,
    Power,
}

/// The buttons pressed since the last frame.
#[derive(Clone, Copy, Debug, PartialEq, Eq, Structural)]
pub struct ButtonState {
    pub back: bool,
    pub confirm: bool,
    pub left: bool,
    pub right: bool,
    pub up: bool,
    pub down: bool,
    pub power: bool,
}

impl ButtonState {
    /// No button pressed.
    pub fn new() -> (s: ButtonState)
        ensures
            forall|b: Buttons| !s.pressed(b),
    {
        ButtonState { back: false, confirm: false, left: false, right: false, up: false, down: false, power: false }
    }

    /// Only `b` pressed.
    pub fn only(b: Buttons) -> (s: ButtonState)
        ensures
            forall|c: Buttons| s.pressed(c) == (c == b),
    {
        let mut s = ButtonState::new();
        s.press(b);
        s
    }

    /// Marks `b` as pressed.
    pub fn press(&mut self, b: Buttons)
        ensures
            final(self).pressed(b),
            forall|c: Buttons| c != b ==> final(self).pressed(c) == old(self).pressed(c),
    {
        match b {
            Buttons::Back => self.back = true,
            Buttons::Confirm => self.confirm = true,
            Buttons::Left => self.left = true,
            Buttons::Right => self.right = true,
            Buttons::Up => self.up = true,
            Buttons::Down => self.down = true,
            Buttons::Power => self.power = true,
        }
    }

    pub open spec fn pressed(self, b: Buttons) -> bool {
        match b {
            Buttons::Back => self.back,
            Buttons::Confirm => self.confirm,
            Buttons::Left => self.left,
            Buttons::Right => self.right,
            Buttons::Up => self.up,
            Buttons::Down => self.down,
            Buttons::Power => self.power,
        }
    }

    pub fn is_pressed(&self, b: Buttons) -> (r: bool)
        ensures
            r == self.pressed(b),
    {
        match b {
            Buttons::Back => self.back,
            Buttons::Confirm => self.confirm,
            Buttons::Left => self.left,
            Buttons::Right => self.right,
            Buttons::Up => self.up,
            Buttons::Down => self.down,
            Buttons::Power => self.power,
        }
    }
}

/// A button as the platform reports it.
#[derive(Clone, Copy, Debug, PartialEq, Eq, Structural)]
pub enum ButtonId {
    Up,
    Down,
    Left,
    Right,
    Confirm,
    Back,
    Power,
}

/// A touch on the panel, as the platform reports it.
#[derive(Clone, Copy, Debug, PartialEq, Eq, Structural)]
pub enum PlatformInputEvent {
    TouchDown { x: i32, y: i32 },
    TouchMove { x: i32, y: i32 },
    TouchUp { x: i32, y: i32 },
}

} // verus!
