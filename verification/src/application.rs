//! The shell's frame step: the screen it is on, the sleep and wake
//! transitions on the power button, and the periodic scan of the Palm
//! install folder. The work a step asks for (waking the device, restoring
//! the screen under the sleep overlay, scanning, handing the frame's touches
//! and buttons to the screen's handlers) is carried out by its caller.
use vstd::prelude::*;
use crate::app::book_reader::BookReaderState;
use crate::app::reader_shell::ReaderStatusBarFocus;
use crate::input::{ButtonState, Buttons, PlatformInputEvent};
use crate::app::home::HomeState;
use crate::palm::shell::PrcStatusBarFocus;
use crate::ui::{ModalFormController, ObjectId};
use crate::app::book_reader::TocTouchHit;

pub mod reader_touch;
pub mod start_menu_touch;
pub mod prc_touch;

verus! {

/// The screen the shell is on.
#[derive(Clone, Copy, Debug, PartialEq, Eq, Structural)]
pub enum AppState {
    StartMenu,
    Records,
    Viewing,
    BookViewing,
    ExitingPending,
    Toc,
    PrcViewing,
    SleepingPending,
    Sleeping,
    Error,
}

/// The screen a wake returns to.
#[derive(Clone, Copy, Debug, PartialEq, Eq, Structural)]
pub enum WakeTarget {
    /// The open book, redrawn in full.
    Book,
    /// The open picture, from the restored screen.
    Image,
    /// The launcher, redrawn from its base.
    StartMenu,
}

/// What one frame step asks its caller to do.
#[derive(Clone, Copy, Debug, PartialEq, Eq, Structural)]
pub struct UpdateStep {
    /// Restart the idle timer.
    pub reset_idle: bool,
    /// Scan the Palm install folder for new applications.
    pub scan_install_inbox: bool,
    /// Wake the device: restore the screen kept under the sleep overlay when
    /// there was one (`restore_overlay`) and show the target screen.
    pub wake: Option<WakeTarget>,
    pub restore_overlay: bool,
    /// Ask the system to go to sleep; the flag says whether the request came
    /// from the launcher.
    pub sleep_request: Option<bool>,
    /// Hand the frame's touches and buttons to the current screen.
    pub dispatch: bool,
}

/// The shell's frame state.
pub struct Application {
    pub state: AppState,
    /// Whether the screen needs a redraw.
    pub dirty: bool,
    /// Time on the launcher since the install folder was last scanned.
    pub install_scan_elapsed_ms: u32,
    /// The launcher.
    pub home: HomeState,
    /// Whether the About dialog is open on the launcher, its form, and the
    /// widget a touch went down on there.
    pub home_about_open: bool,
    pub home_about_form: ModalFormController,
    pub home_touch_pressed_about: Option<ObjectId>,
    /// The widget of the record-detail dialog a touch went down on.
    pub home_touch_pressed_record_detail: Option<ObjectId>,
    /// The book reader.
    pub book_reader: BookReaderState,
    /// The status-bar action with the focus over a Palm application, and the
    /// one a touch went down on.
    pub prc_status_bar_focus: Option<PrcStatusBarFocus>,
    pub prc_touch_pressed_status: Option<PrcStatusBarFocus>,
    /// Whether a picture is open.
    pub image_open: bool,
    /// Whether the screen under the sleep overlay is kept.
    pub sleep_overlay: bool,
    /// The status-bar action with the focus on the reader.
    pub reader_status_bar_focus: Option<ReaderStatusBarFocus>,
    /// Where the last touch went down: on the status bar, on the dialog over
    /// the page, on the table of contents.
    pub reader_touch_pressed_status: Option<ReaderStatusBarFocus>,
    pub reader_touch_pressed_overlay: Option<ObjectId>,
    pub reader_touch_pressed_toc: Option<TocTouchHit>,
}

/// How often the launcher scans the install folder.
pub const INSTALL_SCAN_MS: u32 = 2000;

/// Whether any button is pressed.
pub open spec fn any_input(b: ButtonState) -> bool {
    b.back || b.confirm || b.left || b.right || b.up || b.down || b.power
}

/// The state after a frame step, and what it asks for. On the launcher the
/// scan timer advances and fires every two seconds. Asleep, the power
/// button wakes the device: with the screen kept under the sleep overlay it
/// returns to the open book, else the open picture, else the launcher;
/// without it, to the launcher. Awake (and not about to sleep), the power
/// button asks for sleep. Otherwise the frame goes to the current screen.
/// Touches, and any pressed button, restart the idle timer.
pub open spec fn update_spec(
    state: AppState,
    scan_ms: u32,
    book_open: bool,
    image_open: bool,
    overlay: bool,
    b: ButtonState,
    has_events: bool,
    elapsed_ms: u32,
) -> (AppState, u32, UpdateStep) {
    let advanced: u32 = if state == AppState::StartMenu {
        let t = if scan_ms + elapsed_ms > u32::MAX { u32::MAX } else { (scan_ms + elapsed_ms) as u32 };
        t
    } else {
        scan_ms
    };
    let scan = state == AppState::StartMenu && advanced >= INSTALL_SCAN_MS;
    let scan_ms2: u32 = if scan { 0 } else { advanced };
    let base = UpdateStep {
        reset_idle: has_events,
        scan_install_inbox: scan,
        wake: None,
        restore_overlay: false,
        sleep_request: None,
        dispatch: false,
    };
    if state == AppState::Sleeping && b.power {
        let target = if !overlay {
            WakeTarget::StartMenu
        } else if book_open {
            WakeTarget::Book
        } else if image_open {
            WakeTarget::Image
        } else {
            WakeTarget::StartMenu
        };
        let next = match target {
            WakeTarget::Book => AppState::BookViewing,
            WakeTarget::Image => AppState::Viewing,
            WakeTarget::StartMenu => AppState::StartMenu,
        };
        (next, scan_ms2, UpdateStep { wake: Some(target), restore_overlay: overlay, ..base })
    } else if state != AppState::Sleeping && state != AppState::SleepingPending && b.power {
        (AppState::SleepingPending, scan_ms2, UpdateStep { sleep_request: Some(state == AppState::StartMenu), ..base })
    } else {
        (state, scan_ms2, UpdateStep { reset_idle: has_events || any_input(b), dispatch: true, ..base })
    }
}

impl Application {
    /// A shell on the launcher with nothing open.
    pub fn new() -> (a: Application)
        ensures
            a.state == AppState::StartMenu,
            a.dirty,
            a.install_scan_elapsed_ms == 0,
            a.book_reader.is_empty_reader(),
            a.home.launcher_category == crate::app::home::LauncherCategory::Recents,
            a.home.installed_apps@.len() == 0 && a.home.books_cache@.len() == 0 && a.home.images_cache@.len() == 0,
            !a.home_about_open && a.home_about_form.focus is None,
            a.home_touch_pressed_about is None && a.home_touch_pressed_record_detail is None,
            !a.image_open && !a.sleep_overlay,
            a.reader_status_bar_focus is None,
            a.prc_status_bar_focus is None && a.prc_touch_pressed_status is None,
            a.reader_touch_pressed_status is None,
            a.reader_touch_pressed_overlay is None,
            a.reader_touch_pressed_toc is None,
    {
        Application {
            state: AppState::StartMenu,
            dirty: true,
            install_scan_elapsed_ms: 0,
            home: HomeState::new(),
            home_about_open: false,
            home_about_form: ModalFormController::new(),
            home_touch_pressed_about: None,
            home_touch_pressed_record_detail: None,
            book_reader: BookReaderState::new(),
            prc_status_bar_focus: None,
            prc_touch_pressed_status: None,
            image_open: false,
            sleep_overlay: false,
            reader_status_bar_focus: None,
            reader_touch_pressed_status: None,
            reader_touch_pressed_overlay: None,
            reader_touch_pressed_toc: None,
        }
    }

    /// One frame: `buttons` pressed, `events` touched, `elapsed_ms` since the
    /// last frame (see [`update_spec`]). A wake uses up the kept screen and
    /// marks the screen for redraw, as does a sleep request.
    pub fn update_with_events(&mut self, buttons: &ButtonState, events: &[PlatformInputEvent], elapsed_ms: u32) -> (step: UpdateStep)
        ensures
            ({
                let (st, scan, s) = update_spec(
                    old(self).state,
                    old(self).install_scan_elapsed_ms,
                    old(self).book_reader.current_book is Some,
                    old(self).image_open,
                    old(self).sleep_overlay,
                    *buttons,
                    events@.len() > 0,
                    elapsed_ms,
                );
                &&& step == s
                &&& final(self).state == st
                &&& final(self).install_scan_elapsed_ms == scan
                &&& final(self).book_reader == old(self).book_reader
                &&& final(self).home == old(self).home
                &&& final(self).prc_status_bar_focus == old(self).prc_status_bar_focus
                &&& final(self).prc_touch_pressed_status == old(self).prc_touch_pressed_status
                &&& final(self).home_about_open == old(self).home_about_open
                &&& final(self).home_about_form == old(self).home_about_form
                &&& final(self).home_touch_pressed_about == old(self).home_touch_pressed_about
                &&& final(self).home_touch_pressed_record_detail == old(self).home_touch_pressed_record_detail
                &&& final(self).image_open == old(self).image_open
                &&& final(self).reader_status_bar_focus == old(self).reader_status_bar_focus
                &&& final(self).reader_touch_pressed_status == old(self).reader_touch_pressed_status
                &&& final(self).reader_touch_pressed_overlay == old(self).reader_touch_pressed_overlay
                &&& final(self).reader_touch_pressed_toc == old(self).reader_touch_pressed_toc
                &&& final(self).sleep_overlay == (old(self).sleep_overlay && s.wake is None)
                &&& final(self).dirty == (old(self).dirty || s.wake is Some || s.sleep_request is Some)
            }),
    {
        let mut step = UpdateStep {
            reset_idle: events.len() > 0,
            scan_install_inbox: false,
            wake: None,
            restore_overlay: false,
            sleep_request: None,
            dispatch: false,
        };
        if self.state == AppState::StartMenu {
            self.install_scan_elapsed_ms = self.install_scan_elapsed_ms.saturating_add(elapsed_ms);
            if self.install_scan_elapsed_ms >= INSTALL_SCAN_MS {
                self.install_scan_elapsed_ms = 0;
                step.scan_install_inbox = true;
            }
        }
        if self.state == AppState::Sleeping && buttons.is_pressed(Buttons::Power) {
            let target = if !self.sleep_overlay {
                WakeTarget::StartMenu
            } else if self.book_reader.current_book.is_some() {
                WakeTarget::Book
            } else if self.image_open {
                WakeTarget::Image
            } else {
                WakeTarget::StartMenu
            };
            step.restore_overlay = self.sleep_overlay;
            self.sleep_overlay = false;
            self.state = match target {
                WakeTarget::Book => AppState::BookViewing,
                WakeTarget::Image => AppState::Viewing,
                WakeTarget::StartMenu => AppState::StartMenu,
            };
            step.wake = Some(target);
            self.dirty = true;
            return step;
        }
        if self.state != AppState::Sleeping && self.state != AppState::SleepingPending && buttons.is_pressed(
            Buttons::Power,
        ) {
            step.sleep_request = Some(self.state == AppState::StartMenu);
            self.state = AppState::SleepingPending;
            self.dirty = true;
            return step;
        }
        if buttons.back || buttons.confirm || buttons.left || buttons.right || buttons.up || buttons.down
            || buttons.power {
            step.reset_idle = true;
        }
        step.dispatch = true;
        step
    }
}

/// The power button on an awake screen always asks for sleep and moves to
/// the pending-sleep state; the frame goes to no screen.
pub proof fn lemma_power_sleeps(state: AppState, scan: u32, bo: bool, io: bool, ov: bool, b: ButtonState, ev: bool, el: u32)
    requires
        b.power,
        state != AppState::Sleeping,
        state != AppState::SleepingPending,
    ensures
        ({
            let (st, _, s) = update_spec(state, scan, bo, io, ov, b, ev, el);
            st == AppState::SleepingPending && s.sleep_request == Some(state == AppState::StartMenu) && !s.dispatch
                && s.wake is None
        }),
{
}

/// Asleep, the power button wakes the device to a screen that is not a
/// sleep state; without it the state stays as it is.
pub proof fn lemma_sleep_wakes_on_power(scan: u32, bo: bool, io: bool, ov: bool, b: ButtonState, ev: bool, el: u32)
    ensures
        ({
            let (st, _, s) = update_spec(AppState::Sleeping, scan, bo, io, ov, b, ev, el);
            &&& b.power ==> s.wake is Some && st != AppState::Sleeping && st != AppState::SleepingPending
            &&& !b.power ==> st == AppState::Sleeping && s.wake is None
        }),
{
}

/// Going to sleep from the launcher and waking with nothing open brings the
/// launcher back.
pub proof fn lemma_sleep_then_wake_on_launcher(scan: u32, b: ButtonState, ev: bool, el: u32)
    requires
        b.power,
    ensures
        ({
            let (st1, scan1, s1) = update_spec(AppState::StartMenu, scan, false, false, true, b, ev, el);
            let (st2, _, s2) = update_spec(AppState::Sleeping, scan1, false, false, true, b, ev, el);
            st1 == AppState::SleepingPending && s1.sleep_request == Some(true) && st2 == AppState::StartMenu
                && s2.wake == Some(WakeTarget::StartMenu) && s2.restore_overlay
        }),
{
}

} // verus!
