//! The pieces of the shell's widget toolkit that the state machines use:
//! rectangles, navigation events and the results of forms and dialogs.
use vstd::prelude::*;

verus! {

/// Identifies an object (a button, a table, a field) of a form.
pub type ObjectId = u16;

/// Height of the status bar along the top of the screen.
pub const STATUS_BAR_HEIGHT: i32 = 34;

#[derive(Clone, Copy, Debug, PartialEq, Eq, Structural)]
pub struct Point {
    pub x: i32,
    pub y: i32,
}

impl Point {
    pub fn new(x: i32, y: i32) -> (p: Point)
        ensures
            p == (Point { x, y }),
    {
        Point { x, y }
    }
}

/// A rectangle: its top-left corner, width and height.
#[derive(Clone, Copy, Debug, PartialEq, Eq, Structural)]
pub struct Rect {
    pub x: i32,
    pub y: i32,
    pub w: i32,
    pub h: i32,
}

impl Rect {
    pub fn new(x: i32, y: i32, w: i32, h: i32) -> (r: Rect)
        ensures
            r == (Rect { x, y, w, h }),
    {
        Rect { x, y, w, h }
    }

    pub open spec fn contains_spec(self, p: Point) -> bool {
        &&& self.x <= p.x < self.x + self.w
        &&& self.y <= p.y < self.y + self.h
    }

    /// Whether `p` lies inside: the left and top edges count, the right and
    /// bottom ones do not.
    pub fn contains(&self, p: Point) -> (r: bool)
        ensures
            r == self.contains_spec(p),
    {
        let px = p.x as i64;
        let py = p.y as i64;
        let x = self.x as i64;
        let y = self.y as i64;
        x <= px && px < x + self.w as i64 && y <= py && py < y + self.h as i64
    }
}

/// Which action of the status bar a tap or the focus lands on.
#[derive(Clone, Copy, Debug, PartialEq, Eq, Structural)]
pub enum StatusBarHit {
    Home,
    Menu,
}

/// A navigation step taken with the device's buttons.
#[derive(Clone, Copy, Debug, PartialEq, Eq, Structural)]
pub enum UiNavEvent {
    Up,
    Down,
    Left,
    Right,
    Confirm,
    Back,
}

/// What a modal form reports after an event.
#[derive(Clone, Copy, Debug, PartialEq, Eq, Structural)]
pub enum ModalFormAction {
    Nothing,
    Redraw,
    Closed,
    Activate(ObjectId),
}

/// What a help dialog reports after an event.
#[derive(Clone, Copy, Debug, PartialEq, Eq, Structural)]
pub enum HelpDialogAction {
    Nothing,
    Redraw,
    /// Scroll by this many lines (negative: up).
    Scroll(i32),
    Dismiss,
}

/// A help text on screen, scrolled down by `scroll_line` lines.
#[derive(Clone, Debug, PartialEq, Eq)]
pub struct RuntimeHelpDialog {
    pub help_id: u16,
    pub text: String,
    pub scroll_line: usize,
}

/// The state that a modal form keeps between events: the object that has
/// the focus.
#[derive(Clone, Copy, Debug, PartialEq, Eq, Structural)]
pub struct ModalFormController {
    pub focus: Option<ObjectId>,
}

impl ModalFormController {
    pub fn new() -> (c: ModalFormController)
        ensures
            c.focus is None,
    {
        ModalFormController { focus: None }
    }

    /// Forgets the focus, so that the next form starts afresh.
    pub fn reset(&mut self)
        ensures
            final(self).focus is None,
    {
        self.focus = None;
    }
}

/// The object with the focus, and the form it belongs to.
#[derive(Clone, Copy, Debug, PartialEq, Eq, Structural)]
pub struct UiFocus {
    pub form_id: Option<u16>,
    pub object_id: Option<ObjectId>,
}

/// The part of the form runtime that a state machine steers: the focus.
#[derive(Clone, Copy, Debug, PartialEq, Eq, Structural)]
pub struct UiRuntime {
    pub focus: UiFocus,
}

impl UiRuntime {
    pub fn new() -> (r: UiRuntime)
        ensures
            r.focus == (UiFocus { form_id: None, object_id: None }),
    {
        UiRuntime { focus: UiFocus { form_id: None, object_id: None } }
    }

    /// Puts the focus on `object_id` of the form `form_id`.
    pub fn set_focus(&mut self, form_id: u16, object_id: Option<ObjectId>)
        ensures
            final(self).focus == (UiFocus { form_id: Some(form_id), object_id }),
    {
        self.focus = UiFocus { form_id: Some(form_id), object_id };
    }
}

/// An input event for a form.
#[derive(Clone, Copy, Debug, PartialEq, Eq, Structural)]
pub enum UiEvent {
    ButtonDown { button: crate::input::ButtonId },
}

/// Where a point lands on a table's scroll bar.
#[derive(Clone, Copy, Debug, PartialEq, Eq, Structural)]
pub enum TableScrollBarHit {
    ArrowUp,
    ArrowDown,
    /// On the track: the top row that the point stands for.
    Track { top_row: usize },
}

} // verus!
