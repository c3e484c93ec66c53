//! The reader's status bar and button navigation.
use vstd::prelude::*;
use crate::input::{ButtonState, Buttons};
use crate::ui::{Rect, StatusBarHit, UiNavEvent, STATUS_BAR_HEIGHT};

verus! {

#[derive(Clone, Copy, Debug, PartialEq, Eq, Structural)]
pub enum ReaderStatusBarFocus {
    Home,
    Menu,
}

/// The navigation event of the pressed buttons, by priority: Back, Left,
/// Right, Up, Down, Confirm.
pub open spec fn nav_event_spec(b: ButtonState) -> Option<UiNavEvent> {
    if b.pressed(Buttons::Back) {
        Some(UiNavEvent::Back)
    } else if b.pressed(Buttons::Left) {
        Some(UiNavEvent::Left)
    } else if b.pressed(Buttons::Right) {
        Some(UiNavEvent::Right)
    } else if b.pressed(Buttons::Up) {
        Some(UiNavEvent::Up)
    } else if b.pressed(Buttons::Down) {
        Some(UiNavEvent::Down)
    } else if b.pressed(Buttons::Confirm) {
        Some(UiNavEvent::Confirm)
    } else {
        None
    }
}

pub fn nav_event_from_buttons(buttons: &ButtonState) -> (e: Option<UiNavEvent>)
    ensures
        e == nav_event_spec(*buttons),
{
    if buttons.is_pressed(Buttons::Back) {
        Some(UiNavEvent::Back)
    } else if buttons.is_pressed(Buttons::Left) {
        Some(UiNavEvent::Left)
    } else if buttons.is_pressed(Buttons::Right) {
        Some(UiNavEvent::Right)
    } else if buttons.is_pressed(Buttons::Up) {
        Some(UiNavEvent::Up)
    } else if buttons.is_pressed(Buttons::Down) {
        Some(UiNavEvent::Down)
    } else if buttons.is_pressed(Buttons::Confirm) {
        Some(UiNavEvent::Confirm)
    } else {
        None
    }
}

pub open spec fn to_status_hit_spec(focus: Option<ReaderStatusBarFocus>) -> Option<StatusBarHit> {
    match focus {
        Some(ReaderStatusBarFocus::Home) => Some(StatusBarHit::Home),
        Some(ReaderStatusBarFocus::Menu) => Some(StatusBarHit::Menu),
        None => None,
    }
}

pub open spec fn from_status_hit_spec(hit: Option<StatusBarHit>) -> Option<ReaderStatusBarFocus> {
    match hit {
        Some(StatusBarHit::Home) => Some(ReaderStatusBarFocus::Home),
        Some(StatusBarHit::Menu) => Some(ReaderStatusBarFocus::Menu),
        None => None,
    }
}

/// The status-bar action that a reader focus stands for.
pub fn to_status_hit(focus: Option<ReaderStatusBarFocus>) -> (h: Option<StatusBarHit>)
    ensures
        h == to_status_hit_spec(focus),
{
    match focus {
        Some(ReaderStatusBarFocus::Home) => Some(StatusBarHit::Home),
        Some(ReaderStatusBarFocus::Menu) => Some(StatusBarHit::Menu),
        None => None,
    }
}

/// The reader focus that a status-bar action stands for.
pub fn from_status_hit(hit: Option<StatusBarHit>) -> (f: Option<ReaderStatusBarFocus>)
    ensures
        f == from_status_hit_spec(hit),
{
    match hit {
        Some(StatusBarHit::Home) => Some(ReaderStatusBarFocus::Home),
        Some(StatusBarHit::Menu) => Some(ReaderStatusBarFocus::Menu),
        None => None,
    }
}

/// Converting a focus to a status-bar action and back gives the focus again,
/// and the other way round.
pub proof fn lemma_status_hit_round_trip(focus: Option<ReaderStatusBarFocus>, hit: Option<StatusBarHit>)
    ensures
        from_status_hit_spec(to_status_hit_spec(focus)) == focus,
        to_status_hit_spec(from_status_hit_spec(hit)) == hit,
{
}

/// Where the reader's help dialog goes: under the status bar.
pub fn help_dialog_rect() -> (r: Rect)
    ensures
        r == (Rect { x: 18, y: (STATUS_BAR_HEIGHT + 8) as i32, w: 448, h: 236 }),
{
    Rect::new(18, STATUS_BAR_HEIGHT + 8, 448, 236)
}

} // verus!
