//! Touches on a running Palm application: the shell's status bar, the help
//! dialog, the menu, the soft menu button under the pane and the form's
//! controls, in that order. Where a touch lands on each is found by the
//! caller's hit tests and handed in; what the running application is to be
//! told goes back out.
use vstd::prelude::*;
use crate::application::reader_touch::HelpOverlayHit;
use crate::application::Application;
use crate::input::PlatformInputEvent;
use crate::palm::shell::{PrcPaneLayout, PrcStatusBarFocus};

verus! {

/// Height of the shell's status bar over a Palm application.
pub const PRC_STATUS_H: i32 = 34;

/// The kind of form object a touch lands on.
#[derive(Clone, Copy, Debug, PartialEq, Eq, Structural)]
pub enum FormControlKind {
    Field,
    Table,
    Control,
}

/// What the hit tests found for a touch on a running application.
#[derive(Clone, Copy, Debug)]
pub struct PrcTouchHits {
    /// Whether an application session runs.
    pub session: bool,
    /// The pane the application's screen is drawn in, when a form is shown.
    pub pane: Option<PrcPaneLayout>,
    /// On the shell's status bar.
    pub status: Option<PrcStatusBarFocus>,
    /// Whether the application shows a help dialog, and where on it the
    /// touch lands.
    pub help_shown: bool,
    pub help: Option<HelpOverlayHit>,
    /// Lines a help scroll arrow moves.
    pub help_scroll_step: i32,
    /// Whether the application's menu is open; it takes the touch itself.
    pub menu_active: bool,
    /// The screen's height.
    pub screen_height: i32,
    /// Whether the touch is on the soft menu button under the pane.
    pub soft_menu: bool,
    /// The form object under the touch: its id and kind.
    pub form_hit: Option<(u16, FormControlKind)>,
}

/// What the running application is to be told about a touch.
#[derive(Clone, Copy, Debug, PartialEq, Eq, Structural)]
pub enum PrcTouchAction {
    Nothing,
    /// Leave the application for where it was opened from.
    Exit,
    /// Open the application's menu.
    OpenMenu,
    /// Close the help dialog and resume the application.
    DismissHelp,
    /// Scroll the help dialog by this many lines.
    ScrollHelp(i32),
    /// Focus the form object and send it a field-enter event.
    FieldEnter(u16),
    /// Focus the form object and send a pen-down at the point in Palm
    /// coordinates.
    TablePenDown(u16, u16, u16),
    /// Focus the form object without an event (a table touched on the way up).
    FocusOnly(u16),
    /// Focus the control and send it a control-select event.
    ControlSelect(u16),
}

/// What a touch on a running application did.
#[derive(Clone, Copy, Debug, PartialEq, Eq, Structural)]
pub struct PrcTouchResult {
    pub handled: bool,
    /// The help dialog's control the touch landed on, to take the focus.
    pub help_focus: Option<HelpOverlayHit>,
    /// The menu is open: the caller hands it the touch.
    pub to_menu: bool,
    pub action: PrcTouchAction,
}

pub open spec fn prc_result(handled: bool, action: PrcTouchAction) -> PrcTouchResult {
    PrcTouchResult { handled, help_focus: None, to_menu: false, action }
}

/// `a` divided by `b` rounded toward minus infinity, for `b > 0`.
pub open spec fn div_floor(a: int, b: int) -> int {
    a / b
}

/// The point `(x, y)` in the pane's Palm coordinates, and whether it lies at
/// or right of and below the pane's top-left corner.
pub open spec fn palm_point(x: i32, y: i32, pane: PrcPaneLayout) -> (int, int, bool) {
    let s = if pane.scale >= 1 { pane.scale as int } else { 1int };
    let lx = x - pane.pane_x;
    let ly = y - pane.pane_y;
    (div_floor(lx, s), div_floor(ly, s), lx >= 0 && ly >= 0)
}

/// Whether the strip under the pane, where the soft menu button sits, has
/// any height.
pub open spec fn soft_strip(pane: PrcPaneLayout, screen_height: i32) -> bool {
    let top = PRC_STATUS_H + 2 + 160 * pane.scale;
    let strip_top = if top < 0 { 0 } else if top > screen_height { screen_height as int } else { top };
    screen_height - strip_top > 0
}

/// The shell after a touch on a running application, and what the
/// application is to be told. The status bar acts on the way down (focus)
/// and when the touch lifts where it went down (Home leaves, Menu opens the
/// menu); the help dialog takes every touch that lands on it; an open menu
/// takes the touch; the soft menu button opens the menu on the way down; a
/// form object gets the focus and its event.
pub open spec fn prc_touch_spec(o: Application, e: PlatformInputEvent, hits: PrcTouchHits) -> (Application, PrcTouchResult) {
    let down = e is TouchDown;
    let (x, y) = match e {
        PlatformInputEvent::TouchDown { x, y } => (x, y),
        PlatformInputEvent::TouchUp { x, y } => (x, y),
        PlatformInputEvent::TouchMove { x, y } => (x, y),
    };
    if e is TouchMove || !hits.session || hits.pane is None {
        (o, prc_result(false, PrcTouchAction::Nothing))
    } else {
        let pane = hits.pane->Some_0;
        let o1 = match hits.status {
            Some(h) => Application { prc_status_bar_focus: Some(h), ..o },
            None => Application { prc_touch_pressed_status: if down { o.prc_touch_pressed_status } else { None }, ..o },
        };
        if hits.status is Some && down {
            (
                Application { prc_touch_pressed_status: hits.status, dirty: true, ..o1 },
                prc_result(true, PrcTouchAction::Nothing),
            )
        } else if hits.status is Some && o.prc_touch_pressed_status == hits.status {
            (
                Application { prc_touch_pressed_status: None, ..o1 },
                prc_result(true, match hits.status->Some_0 {
                    PrcStatusBarFocus::Home => PrcTouchAction::Exit,
                    PrcStatusBarFocus::Menu => PrcTouchAction::OpenMenu,
                }),
            )
        } else if hits.help_shown {
            match hits.help {
                None => (o1, prc_result(false, PrcTouchAction::Nothing)),
                Some(h) => {
                    let r = PrcTouchResult { help_focus: Some(h), ..prc_result(true, PrcTouchAction::Nothing) };
                    match h {
                        HelpOverlayHit::Done => if down {
                            (Application { dirty: true, ..o1 }, r)
                        } else {
                            (o1, PrcTouchResult { action: PrcTouchAction::DismissHelp, ..r })
                        },
                        HelpOverlayHit::ScrollUp => (o1, if down {
                            PrcTouchResult { action: PrcTouchAction::ScrollHelp((-hits.help_scroll_step) as i32), ..r }
                        } else {
                            r
                        }),
                        HelpOverlayHit::ScrollDown => (o1, if down {
                            PrcTouchResult { action: PrcTouchAction::ScrollHelp(hits.help_scroll_step), ..r }
                        } else {
                            r
                        }),
                    }
                },
            }
        } else if hits.menu_active {
            (o1, PrcTouchResult { to_menu: true, ..prc_result(false, PrcTouchAction::Nothing) })
        } else if soft_strip(pane, hits.screen_height) && down && hits.soft_menu {
            (o1, prc_result(true, PrcTouchAction::OpenMenu))
        } else {
            let (px, py, inside) = palm_point(x, y, pane);
            if !inside {
                (o1, prc_result(false, PrcTouchAction::Nothing))
            } else {
                match hits.form_hit {
                    None => (o1, prc_result(false, PrcTouchAction::Nothing)),
                    Some((id, kind)) => {
                        let action = match kind {
                            FormControlKind::Field => PrcTouchAction::FieldEnter(id),
                            FormControlKind::Table => if down {
                                PrcTouchAction::TablePenDown(id, px as u16, py as u16)
                            } else {
                                PrcTouchAction::FocusOnly(id)
                            },
                            FormControlKind::Control => PrcTouchAction::ControlSelect(id),
                        };
                        if down {
                            (Application { dirty: true, ..o1 }, prc_result(true, action))
                        } else {
                            (o1, prc_result(false, action))
                        }
                    },
                }
            }
        }
    }
}

fn div_floor_i32(a: i32, b: i32) -> (q: i32)
    requires
        a >= 0,
        b >= 1,
    ensures
        q == div_floor(a as int, b as int),
{
    a / b
}

impl Application {
    /// A touch on a running Palm application (see [`prc_touch_spec`]).
    pub fn prc_handle_touch_event(&mut self, event: &PlatformInputEvent, hits: &PrcTouchHits) -> (r: PrcTouchResult)
        requires
            hits.help_scroll_step > i32::MIN,
            hits.pane matches Some(p) ==> {
                &&& 0 <= p.pane_x <= 0x1000_0000
                &&& 0 <= p.pane_y <= 0x1000_0000
                &&& 1 <= p.scale <= 3
            },
            match *event {
                PlatformInputEvent::TouchDown { x, y } => x >= i32::MIN + 0x1000_0000 && y >= i32::MIN + 0x1000_0000,
                PlatformInputEvent::TouchUp { x, y } => x >= i32::MIN + 0x1000_0000 && y >= i32::MIN + 0x1000_0000,
                PlatformInputEvent::TouchMove { .. } => true,
            },
        ensures
            (*final(self), r) == prc_touch_spec(*old(self), *event, *hits),
    {
        let none = PrcTouchResult { handled: false, help_focus: None, to_menu: false, action: PrcTouchAction::Nothing };
        let (x, y, down) = match *event {
            PlatformInputEvent::TouchDown { x, y } => (x, y, true),
            PlatformInputEvent::TouchUp { x, y } => (x, y, false),
            PlatformInputEvent::TouchMove { .. } => {
                return none;
            },
        };
        if !hits.session {
            return none;
        }
        let pane = match hits.pane {
            Some(p) => p,
            None => {
                return none;
            },
        };
        match hits.status {
            Some(h) => {
                self.prc_status_bar_focus = Some(h);
                if down {
                    self.prc_touch_pressed_status = Some(h);
                    self.dirty = true;
                    return PrcTouchResult { handled: true, ..none };
                }
                if self.prc_touch_pressed_status == Some(h) {
                    self.prc_touch_pressed_status = None;
                    let action = match h {
                        PrcStatusBarFocus::Home => PrcTouchAction::Exit,
                        PrcStatusBarFocus::Menu => PrcTouchAction::OpenMenu,
                    };
                    return PrcTouchResult { handled: true, action, ..none };
                }
            },
            None => {
                if !down {
                    self.prc_touch_pressed_status = None;
                }
            },
        }
        if hits.help_shown {
            return match hits.help {
                None => none,
                Some(h) => {
                    let r = PrcTouchResult { handled: true, help_focus: Some(h), ..none };
                    match h {
                        HelpOverlayHit::Done => if down {
                            self.dirty = true;
                            r
                        } else {
                            PrcTouchResult { action: PrcTouchAction::DismissHelp, ..r }
                        },
                        HelpOverlayHit::ScrollUp => if down {
                            PrcTouchResult { action: PrcTouchAction::ScrollHelp(-hits.help_scroll_step), ..r }
                        } else {
                            r
                        },
                        HelpOverlayHit::ScrollDown => if down {
                            PrcTouchResult { action: PrcTouchAction::ScrollHelp(hits.help_scroll_step), ..r }
                        } else {
                            r
                        },
                    }
                },
            };
        }
        if hits.menu_active {
            return PrcTouchResult { to_menu: true, ..none };
        }
        let top = PRC_STATUS_H + 2 + 160 * pane.scale;
        let strip_top = if top < 0 { 0 } else if top > hits.screen_height { hits.screen_height } else { top };
        let strip = hits.screen_height as i64 - strip_top as i64 > 0;
        if strip && down && hits.soft_menu {
            return PrcTouchResult { handled: true, action: PrcTouchAction::OpenMenu, ..none };
        }
        let lx = x - pane.pane_x;
        let ly = y - pane.pane_y;
        if lx < 0 || ly < 0 {
            return none;
        }
        let px = div_floor_i32(lx, pane.scale);
        let py = div_floor_i32(ly, pane.scale);
        match hits.form_hit {
            None => none,
            Some((id, kind)) => {
                let action = match kind {
                    FormControlKind::Field => PrcTouchAction::FieldEnter(id),
                    FormControlKind::Table => if down {
                        PrcTouchAction::TablePenDown(id, px as u16, py as u16)
                    } else {
                        PrcTouchAction::FocusOnly(id)
                    },
                    FormControlKind::Control => PrcTouchAction::ControlSelect(id),
                };
                if down {
                    self.dirty = true;
                    PrcTouchResult { handled: true, action, ..none }
                } else {
                    PrcTouchResult { action, ..none }
                }
            },
        }
    }
}

} // verus!
