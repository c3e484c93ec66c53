//! Touches on the reader: the help dialog, the page and statistics dialog,
//! the table of contents and the status bar, each taking a touch before the
//! layers under it. Where a touch lands on each layer is found by the
//! caller's hit tests and handed in.
use vstd::prelude::*;
use crate::app::book_reader::{
    help_action_spec, labels_ensured, overlay_action_spec, toc_press_spec, toc_release_spec, book_toc,
    BookReaderState, ReaderOverlay, TocResult, TocTouchHit,
};
use crate::app::reader_shell::ReaderStatusBarFocus;
use crate::application::{AppState, Application};
use crate::input::PlatformInputEvent;
use crate::ui::{HelpDialogAction, ModalFormAction, ObjectId, StatusBarHit};

verus! {

/// Where a touch lands on the help dialog.
#[derive(Clone, Copy, Debug, PartialEq, Eq, Structural)]
pub enum HelpOverlayHit {
    Done,
    ScrollUp,
    ScrollDown,
}

/// A touch on the page or statistics dialog as its form found it: the
/// widget under it (none: on the form but on no widget), whether putting
/// the focus there changed it, and what activating the widget reports.
#[derive(Clone, Copy, Debug, PartialEq, Eq, Structural)]
pub struct ModalTouch {
    pub widget: Option<ObjectId>,
    pub changed: bool,
    pub activated: ModalFormAction,
}

/// What the hit tests found for a touch on each layer of the reader.
#[derive(Clone, Copy, Debug, PartialEq, Eq, Structural)]
pub struct ReaderTouchHits {
    /// On the help dialog, when it is shown.
    pub help: Option<HelpOverlayHit>,
    /// Lines a scroll arrow of the help dialog moves.
    pub help_scroll_step: i32,
    /// On the page or statistics dialog (none: outside it).
    pub overlay: Option<ModalTouch>,
    /// On the table of contents.
    pub toc: Option<TocTouchHit>,
    /// Rows of the table of contents that fit its list.
    pub toc_visible_rows: usize,
    /// Whether the reader's menu is open; it takes the touch itself.
    pub menu_active: bool,
    /// On the status bar.
    pub status: Option<StatusBarHit>,
}

/// What a touch on the reader did.
pub struct ReaderTouchResult {
    /// Whether a layer of the reader took the touch.
    pub handled: bool,
    /// The help dialog's control the touch landed on, to take the focus.
    pub help_focus: Option<HelpOverlayHit>,
    /// The menu is open: the caller hands it the touch.
    pub to_menu: bool,
    /// The caller opens the reader's menu.
    pub open_menu: bool,
    /// The reader came back to the page: the caller closes its menus and
    /// help dialog and redraws in full.
    pub book_view_entered: bool,
    /// What the table of contents reported, when it took the touch.
    pub toc: Option<TocResult>,
}

pub open spec fn no_touch() -> ReaderTouchResult {
    ReaderTouchResult {
        handled: false,
        help_focus: None,
        to_menu: false,
        open_menu: false,
        book_view_entered: false,
        toc: None,
    }
}

pub open spec fn touch_taken() -> ReaderTouchResult {
    ReaderTouchResult { handled: true, ..no_touch() }
}

/// Whether the help dialog is the dialog over the page.
pub open spec fn help_shown(b: BookReaderState) -> bool {
    b.overlay matches Some(ReaderOverlay::Help(_))
}

/// The shell back on the page: touch state and status-bar focus cleared,
/// to be redrawn.
pub open spec fn book_view(a: Application) -> Application {
    Application {
        state: AppState::BookViewing,
        reader_status_bar_focus: None,
        reader_touch_pressed_status: None,
        reader_touch_pressed_overlay: None,
        reader_touch_pressed_toc: None,
        dirty: true,
        ..a
    }
}

/// What the help dialog does with a touch on `h`: Done dismisses it on the
/// way up, the arrows scroll on the way down; otherwise only a redraw.
pub open spec fn help_touch_action(h: HelpOverlayHit, down: bool, step: i32) -> Option<HelpDialogAction> {
    match h {
        HelpOverlayHit::Done => if !down { Some(HelpDialogAction::Dismiss) } else { None },
        HelpOverlayHit::ScrollUp => if down { Some(HelpDialogAction::Scroll((-step) as i32)) } else { None },
        HelpOverlayHit::ScrollDown => if down { Some(HelpDialogAction::Scroll(step)) } else { None },
    }
}

/// Whether `after` and `res` are what the table of contents does with a
/// touch on `hit` going down (`down`) or lifting (where `pressed` is where
/// it went down), from `before`.
pub open spec fn toc_step(before: BookReaderState, after: BookReaderState, down: bool, hit: TocTouchHit,
    pressed: Option<TocTouchHit>, rows: usize, res: TocResult) -> bool
{
    if before.current_book is None {
        after == before && res == (TocResult { exit: true, jumped: false, dirty: true })
    } else {
        &&& labels_ensured(before.toc_labels, after.toc_labels, book_toc(before))
        &&& (BookReaderState { toc_labels: before.toc_labels, ..after }, res) == if down {
            toc_press_spec(before, book_toc(before).len() as usize, rows, hit)
        } else {
            toc_release_spec(before, book_toc(before), hit, pressed)
        }
    }
}

/// The shell after a touch on the layers under the table of contents: the
/// menu, when open, takes it; else the status bar, where Home and Menu act
/// when the touch lifts where it went down.
pub open spec fn status_touch_spec(o: Application, down: bool, hits: ReaderTouchHits) -> (Application, ReaderTouchResult) {
    if hits.menu_active {
        (o, ReaderTouchResult { to_menu: true, ..no_touch() })
    } else {
        match hits.status {
            None => (
                Application { reader_touch_pressed_status: if down { o.reader_touch_pressed_status } else { None }, ..o },
                no_touch(),
            ),
            Some(hit) => {
                let focus = match hit {
                    StatusBarHit::Home => ReaderStatusBarFocus::Home,
                    StatusBarHit::Menu => ReaderStatusBarFocus::Menu,
                };
                if down {
                    (
                        Application {
                            reader_status_bar_focus: Some(focus),
                            reader_touch_pressed_status: Some(focus),
                            dirty: true,
                            ..o
                        },
                        touch_taken(),
                    )
                } else if o.reader_touch_pressed_status == Some(focus) {
                    match hit {
                        StatusBarHit::Home => (
                            Application {
                                reader_touch_pressed_status: None,
                                state: AppState::ExitingPending,
                                dirty: true,
                                ..o
                            },
                            touch_taken(),
                        ),
                        StatusBarHit::Menu => (
                            Application { reader_touch_pressed_status: None, ..o },
                            ReaderTouchResult { open_menu: true, ..touch_taken() },
                        ),
                    }
                } else {
                    (o, touch_taken())
                }
            },
        }
    }
}

/// The shell after a touch on the reader, given `b_toc` and `toc_res`, what
/// the table of contents left and reported when it took the touch (see
/// [`toc_step`]).
pub open spec fn reader_touch_spec(o: Application, e: PlatformInputEvent, hits: ReaderTouchHits,
    b_toc: BookReaderState, toc_res: TocResult) -> (Application, ReaderTouchResult)
{
    let down = e is TouchDown;
    if e is TouchMove {
        (o, no_touch())
    } else if help_shown(o.book_reader) {
        match hits.help {
            None => (o, no_touch()),
            Some(h) => {
                let r = ReaderTouchResult { help_focus: Some(h), ..touch_taken() };
                match help_touch_action(h, down, hits.help_scroll_step) {
                    Some(a) => {
                        let (b2, res) = help_action_spec(o.book_reader, a);
                        (Application { book_reader: b2, dirty: o.dirty || res.dirty, ..o }, r)
                    },
                    None => (Application { dirty: true, ..o }, r),
                }
            },
        }
    } else if o.book_reader.overlay is Some {
        match hits.overlay {
            None => (
                Application { reader_touch_pressed_overlay: if down { o.reader_touch_pressed_overlay } else { None }, ..o },
                touch_taken(),
            ),
            Some(t) => match t.widget {
                None => (o, touch_taken()),
                Some(id) => if down {
                    (Application { reader_touch_pressed_overlay: Some(id), dirty: o.dirty || t.changed, ..o }, touch_taken())
                } else if o.reader_touch_pressed_overlay == Some(id) {
                    let (b2, res) = overlay_action_spec(o.book_reader, t.activated);
                    let a = Application { book_reader: b2, reader_touch_pressed_overlay: None, ..o };
                    if res.jumped {
                        (book_view(a), ReaderTouchResult { book_view_entered: true, ..touch_taken() })
                    } else {
                        (Application { dirty: o.dirty || res.dirty || t.changed, ..a }, touch_taken())
                    }
                } else {
                    (Application { reader_touch_pressed_overlay: None, dirty: o.dirty || t.changed, ..o }, touch_taken())
                },
            },
        }
    } else if o.state == AppState::Toc && hits.toc is Some {
        let hit = hits.toc->Some_0;
        let a = Application {
            book_reader: b_toc,
            reader_touch_pressed_toc: if down { Some(hit) } else { None },
            ..o
        };
        let r = ReaderTouchResult { toc: Some(toc_res), ..touch_taken() };
        if toc_res.exit || toc_res.jumped {
            (book_view(a), ReaderTouchResult { book_view_entered: true, ..r })
        } else {
            (Application { dirty: o.dirty || toc_res.dirty, ..a }, r)
        }
    } else {
        let o2 = if o.state == AppState::Toc && !down { Application { reader_touch_pressed_toc: None, ..o } } else { o };
        status_touch_spec(o2, down, hits)
    }
}

impl Application {
    fn enter_book_view(&mut self)
        ensures
            *final(self) == book_view(*old(self)),
    {
        self.state = AppState::BookViewing;
        self.reader_status_bar_focus = None;
        self.reader_touch_pressed_status = None;
        self.reader_touch_pressed_overlay = None;
        self.reader_touch_pressed_toc = None;
        self.dirty = true;
    }

    /// A touch on the reader (see [`reader_touch_spec`]): returns whether a
    /// layer took it, and what the caller is to do.
    pub fn reader_handle_touch_event(&mut self, event: &PlatformInputEvent, hits: &ReaderTouchHits) -> (r: ReaderTouchResult)
        requires
            hits.help_scroll_step > i32::MIN,
        ensures
            r.toc matches Some(res) ==> toc_step(
                old(self).book_reader,
                final(self).book_reader,
                *event is TouchDown,
                hits.toc->Some_0,
                old(self).reader_touch_pressed_toc,
                hits.toc_visible_rows,
                res,
            ),
            (*final(self), r) == reader_touch_spec(
                *old(self),
                *event,
                *hits,
                final(self).book_reader,
                match r.toc { Some(res) => res, None => TocResult { exit: false, jumped: false, dirty: false } },
            ),
    {
        let down = match event {
            PlatformInputEvent::TouchDown { .. } => true,
            PlatformInputEvent::TouchUp { .. } => false,
            PlatformInputEvent::TouchMove { .. } => {
                return ReaderTouchResult {
                    handled: false,
                    help_focus: None,
                    to_menu: false,
                    open_menu: false,
                    book_view_entered: false,
                    toc: None,
                };
            },
        };
        let mut result = ReaderTouchResult {
            handled: true,
            help_focus: None,
            to_menu: false,
            open_menu: false,
            book_view_entered: false,
            toc: None,
        };
        let help = match &self.book_reader.overlay {
            Some(ReaderOverlay::Help(_)) => true,
            _ => false,
        };
        if help {
            match hits.help {
                None => {
                    result.handled = false;
                },
                Some(h) => {
                    result.help_focus = Some(h);
                    let action = match h {
                        HelpOverlayHit::Done => if !down { Some(HelpDialogAction::Dismiss) } else { None },
                        HelpOverlayHit::ScrollUp => if down { Some(HelpDialogAction::Scroll(-hits.help_scroll_step)) } else { None },
                        HelpOverlayHit::ScrollDown => if down { Some(HelpDialogAction::Scroll(hits.help_scroll_step)) } else { None },
                    };
                    match action {
                        Some(a) => {
                            let res = self.book_reader.apply_help_action(a);
                            if res.dirty {
                                self.dirty = true;
                            }
                        },
                        None => {
                            self.dirty = true;
                        },
                    }
                },
            }
            return result;
        }
        if self.book_reader.overlay.is_some() {
            match hits.overlay {
                None => {
                    if !down {
                        self.reader_touch_pressed_overlay = None;
                    }
                },
                Some(t) => match t.widget {
                    None => {},
                    Some(id) => {
                        if down {
                            self.reader_touch_pressed_overlay = Some(id);
                            if t.changed {
                                self.dirty = true;
                            }
                        } else {
                            let pressed = self.reader_touch_pressed_overlay;
                            self.reader_touch_pressed_overlay = None;
                            if pressed == Some(id) {
                                let res = self.book_reader.apply_overlay_action(t.activated);
                                if res.jumped {
                                    self.enter_book_view();
                                    result.book_view_entered = true;
                                } else if res.dirty || t.changed {
                                    self.dirty = true;
                                }
                            } else if t.changed {
                                self.dirty = true;
                            }
                        }
                    },
                },
            }
            return result;
        }
        if self.state == AppState::Toc {
            if let Some(hit) = hits.toc {
                let res = if down {
                    self.reader_touch_pressed_toc = Some(hit);
                    self.book_reader.handle_toc_touch_press(hit, hits.toc_visible_rows)
                } else {
                    let pressed = self.reader_touch_pressed_toc;
                    self.reader_touch_pressed_toc = None;
                    self.book_reader.handle_toc_touch_release(hit, pressed)
                };
                let exit = res.exit || res.jumped;
                let dirty = res.dirty;
                result.toc = Some(res);
                if exit {
                    self.enter_book_view();
                    result.book_view_entered = true;
                } else if dirty {
                    self.dirty = true;
                }
                return result;
            }
            if !down {
                self.reader_touch_pressed_toc = None;
            }
        }
        if hits.menu_active {
            result.handled = false;
            result.to_menu = true;
            return result;
        }
        match hits.status {
            None => {
                if !down {
                    self.reader_touch_pressed_status = None;
                }
                result.handled = false;
            },
            Some(hit) => {
                let focus = match hit {
                    StatusBarHit::Home => ReaderStatusBarFocus::Home,
                    StatusBarHit::Menu => ReaderStatusBarFocus::Menu,
                };
                if down {
                    self.reader_status_bar_focus = Some(focus);
                    self.reader_touch_pressed_status = Some(focus);
                    self.dirty = true;
                } else if self.reader_touch_pressed_status == Some(focus) {
                    self.reader_touch_pressed_status = None;
                    match hit {
                        StatusBarHit::Home => {
                            self.state = AppState::ExitingPending;
                            self.dirty = true;
                        },
                        StatusBarHit::Menu => {
                            result.open_menu = true;
                        },
                    }
                }
            },
        }
        result
    }
}

} // verus!
