//! Touches on the launcher: the record-detail dialog, the About dialog,
//! the menu and the launcher itself, each taking a touch before the layers
//! under it. Where a touch lands on the dialogs is found by the caller's hit
//! tests and handed in.
use vstd::prelude::*;
use crate::app::home::{hit_fits, start_menu_touch_spec, tops_in_range, HomeAction, HomeState};
use crate::app::settings::ABOUT_OK_ID;
use crate::application::reader_touch::ModalTouch;
use crate::application::Application;
use crate::input::PlatformInputEvent;
use crate::ui::{ModalFormAction, ModalFormController, TableScrollBarHit};

verus! {

/// What the hit tests found for a touch on each layer of the launcher.
#[derive(Clone, Copy, Debug)]
pub struct StartMenuTouchHits {
    /// When the record-detail dialog is open: the touch on it (none: off it).
    pub record_detail: Option<Option<ModalTouch>>,
    /// On the About dialog, when it is open (none: off it).
    pub about: Option<ModalTouch>,
    /// Whether the launcher's menu is open; it takes the touch itself.
    pub menu_active: bool,
    /// The screen's size, and what the launcher's table and scroll bar hit
    /// tests found.
    pub width: i32,
    pub height: i32,
    pub table_hit: Option<(usize, usize)>,
    pub scrollbar_hit: Option<TableScrollBarHit>,
}

/// What a touch on the launcher did.
pub struct StartMenuTouchResult {
    /// Whether a layer of the launcher took the touch.
    pub handled: bool,
    /// The menu is open: the caller hands it the touch.
    pub to_menu: bool,
    /// What the record-detail dialog's activated widget reports, for the
    /// caller to apply.
    pub record_detail_action: Option<ModalFormAction>,
    /// The item the launcher opens.
    pub open_recent: Option<String>,
}

pub open spec fn no_start_touch() -> StartMenuTouchResult {
    StartMenuTouchResult { handled: false, to_menu: false, record_detail_action: None, open_recent: None }
}

pub open spec fn start_touch_taken() -> StartMenuTouchResult {
    StartMenuTouchResult { handled: true, ..no_start_touch() }
}

/// The shell after a touch on the launcher: the record-detail dialog, when
/// open, takes it (activating a widget when the touch lifts where it went
/// down); else the About dialog (OK closes it the same way); else the open
/// menu; else the launcher, which redraws unless it opens an item.
pub open spec fn start_menu_touch_step(o: Application, e: PlatformInputEvent, recents: Seq<String>,
    hits: StartMenuTouchHits) -> (Application, StartMenuTouchResult)
{
    let down = e is TouchDown;
    if e is TouchMove {
        (o, no_start_touch())
    } else if hits.record_detail is Some {
        match hits.record_detail->Some_0 {
            None => (
                Application {
                    home_touch_pressed_record_detail: if down { o.home_touch_pressed_record_detail } else { None },
                    ..o
                },
                start_touch_taken(),
            ),
            Some(t) => match t.widget {
                None => (o, start_touch_taken()),
                Some(id) => if down {
                    (Application { home_touch_pressed_record_detail: Some(id), dirty: o.dirty || t.changed, ..o }, start_touch_taken())
                } else if o.home_touch_pressed_record_detail == Some(id) {
                    (
                        Application { home_touch_pressed_record_detail: None, ..o },
                        StartMenuTouchResult { record_detail_action: Some(t.activated), ..start_touch_taken() },
                    )
                } else {
                    (Application { home_touch_pressed_record_detail: None, dirty: o.dirty || t.changed, ..o }, start_touch_taken())
                },
            },
        }
    } else if o.home_about_open {
        match hits.about {
            None => (
                Application { home_touch_pressed_about: if down { o.home_touch_pressed_about } else { None }, ..o },
                start_touch_taken(),
            ),
            Some(t) => match t.widget {
                None => (o, start_touch_taken()),
                Some(id) => if down {
                    (Application { home_touch_pressed_about: Some(id), dirty: o.dirty || t.changed, ..o }, start_touch_taken())
                } else if o.home_touch_pressed_about == Some(id) && id == ABOUT_OK_ID {
                    (
                        Application {
                            home_touch_pressed_about: None,
                            home_about_open: false,
                            home_about_form: ModalFormController { focus: None },
                            dirty: true,
                            ..o
                        },
                        start_touch_taken(),
                    )
                } else {
                    (Application { home_touch_pressed_about: None, dirty: o.dirty || t.changed, ..o }, start_touch_taken())
                },
            },
        }
    } else if hits.menu_active {
        (o, StartMenuTouchResult { to_menu: true, ..no_start_touch() })
    } else {
        let (h2, action) = start_menu_touch_spec(o.home, recents, e, hits.width, hits.table_hit, hits.scrollbar_hit);
        match action {
            HomeAction::OpenRecent(path) => (
                Application { home: h2, ..o },
                StartMenuTouchResult { open_recent: Some(path), ..start_touch_taken() },
            ),
            HomeAction::Nothing => (Application { home: h2, dirty: true, ..o }, start_touch_taken()),
        }
    }
}

impl Application {
    /// A touch on the launcher (see [`start_menu_touch_step`]), with
    /// `recents` the recent items it lists.
    pub fn start_menu_handle_touch_event(&mut self, event: &PlatformInputEvent, recents: &[String],
        hits: &StartMenuTouchHits) -> (r: StartMenuTouchResult)
        requires
            tops_in_range(old(self).home),
            hits.width >= i32::MIN + 140,
            hit_fits(old(self).home.launcher_category, hits.table_hit),
        ensures
            (*final(self), r) == start_menu_touch_step(*old(self), *event, recents@, *hits),
    {
        let down = match event {
            PlatformInputEvent::TouchDown { .. } => true,
            PlatformInputEvent::TouchUp { .. } => false,
            PlatformInputEvent::TouchMove { .. } => {
                return StartMenuTouchResult { handled: false, to_menu: false, record_detail_action: None, open_recent: None };
            },
        };
        let mut result = StartMenuTouchResult { handled: true, to_menu: false, record_detail_action: None, open_recent: None };
        if let Some(detail) = hits.record_detail {
            match detail {
                None => {
                    if !down {
                        self.home_touch_pressed_record_detail = None;
                    }
                },
                Some(t) => match t.widget {
                    None => {},
                    Some(id) => {
                        if down {
                            self.home_touch_pressed_record_detail = Some(id);
                            if t.changed {
                                self.dirty = true;
                            }
                        } else {
                            let pressed = self.home_touch_pressed_record_detail;
                            self.home_touch_pressed_record_detail = None;
                            if pressed == Some(id) {
                                result.record_detail_action = Some(t.activated);
                            } else if t.changed {
                                self.dirty = true;
                            }
                        }
                    },
                },
            }
            return result;
        }
        if self.home_about_open {
            match hits.about {
                None => {
                    if !down {
                        self.home_touch_pressed_about = None;
                    }
                },
                Some(t) => match t.widget {
                    None => {},
                    Some(id) => {
                        if down {
                            self.home_touch_pressed_about = Some(id);
                            if t.changed {
                                self.dirty = true;
                            }
                        } else {
                            let pressed = self.home_touch_pressed_about;
                            self.home_touch_pressed_about = None;
                            if pressed == Some(id) && id == ABOUT_OK_ID {
                                self.home_about_open = false;
                                self.home_about_form.reset();
                                self.dirty = true;
                            } else if t.changed {
                                self.dirty = true;
                            }
                        }
                    },
                },
            }
            return result;
        }
        if hits.menu_active {
            result.handled = false;
            result.to_menu = true;
            return result;
        }
        match self.home.handle_start_menu_touch(recents, event, hits.width, hits.height, hits.table_hit, hits.scrollbar_hit) {
            HomeAction::OpenRecent(path) => {
                result.open_recent = Some(path);
            },
            HomeAction::Nothing => {
                self.dirty = true;
            },
        }
        result
    }
}

} // verus!
