//! The launcher: recent items, installed applications, books and images,
//! browsed with the buttons or by touch.
use vstd::prelude::*;
use vstd::string::StringSliceAdditionalSpecFns;
use crate::framebuffer::FB_HEIGHT;
use crate::image_viewer::{ImageData, InstalledAppEntry};
use crate::input::{ButtonId, ButtonState, Buttons, PlatformInputEvent};
use crate::palm::shell::div_trunc;
use crate::ui::{ObjectId, Point, Rect, TableScrollBarHit, UiEvent, UiRuntime};


pub mod thumbnail;

verus! {

pub const START_MENU_MARGIN: i32 = 16;
pub const START_MENU_RECENT_THUMB: i32 = 74;
pub const START_MENU_STATUS_H: i32 = 34;
pub const START_MENU_FORM_Y: i32 = START_MENU_STATUS_H + 2;
pub const HEADER_Y: i32 = START_MENU_FORM_Y + 22;
pub const LIST_TOP: i32 = 72;
pub const APP_GRID_COLS: usize = 3;
pub const HOME_FORM_ID: u16 = 1;
pub const HOME_OBJ_CATEGORY_TRIGGER: ObjectId = 100;
pub const HOME_OBJ_RECENTS_TABLE: ObjectId = 110;
pub const HOME_OBJ_APPS_TABLE: ObjectId = 111;
pub const HOME_OBJ_CONTENT_BASE: ObjectId = 1000;
pub const HOME_OBJ_CATEGORY_MENU_BASE: ObjectId = 2000;
pub const HOME_OBJ_DIALOG_DISMISS: ObjectId = 3000;

/// Which part of the launcher has the focus: the content list or the
/// category trigger above it.
#[derive(Clone, Copy, Debug, PartialEq, Eq, Structural)]
pub enum StartMenuSection {
    Recents,
    Actions,
}

#[derive(Clone, Copy, Debug, PartialEq, Eq, Structural)]
pub enum LauncherCategory {
    Recents,
    Apps,
    Books,
    Images,
}

/// A launcher entry: its path, its title and its thumbnail.
pub struct RecentPreview {
    pub path: String,
    pub title: String,
    pub image: Option<ImageData>,
}

pub struct InstallDialogState {
    pub title: String,
    pub message: String,
}

/// The launcher's state.
pub struct HomeState {
    pub ui_runtime: UiRuntime,
    pub prev_focus_object_id: Option<ObjectId>,
    pub start_menu_section: StartMenuSection,
    pub launcher_category: LauncherCategory,
    pub start_menu_index: usize,
    pub category_menu_open: bool,
    pub category_menu_index: usize,
    pub start_menu_cache: Vec<RecentPreview>,
    pub books_cache: Vec<RecentPreview>,
    pub images_cache: Vec<RecentPreview>,
    pub installed_apps: Vec<InstalledAppEntry>,
    pub apps_top_row: usize,
    pub books_top_row: usize,
    pub images_top_row: usize,
    pub touch_pressed_index: Option<usize>,
    pub last_table_touch_rect: Option<Rect>,
    pub last_scrollbar_rect: Option<Rect>,
    pub last_category_trigger_rect: Option<Rect>,
    pub last_category_popup_rect: Option<Rect>,
    pub start_menu_nav_pending: bool,
    pub start_menu_need_base_refresh: bool,
    pub install_dialog: Option<InstallDialogState>,
}

/// What the launcher asks the shell to do.
pub enum HomeAction {
    Nothing,
    OpenRecent(String),
}

/// The counts of an install run over the install inbox.
#[derive(Clone, Copy, Debug, PartialEq, Eq, Structural)]
pub struct InstallSummary {
    pub scanned: usize,
    pub installed: usize,
    pub upgraded: usize,
    pub skipped: usize,
    pub failed: usize,
}

/// Height of the launcher's list: from under the header to the bottom margin.
pub open spec fn content_height_spec() -> int {
    let h = FB_HEIGHT as int - START_MENU_MARGIN - (HEADER_Y + 28);
    if h >= 1 { h } else { 1 }
}

pub open spec fn row_height_spec(category: LauncherCategory) -> int {
    if category == LauncherCategory::Apps { 120 } else { 99 }
}

/// How many rows of `category` fit in the list (at least one).
pub open spec fn visible_rows_spec(category: LauncherCategory) -> usize {
    let n = content_height_spec() / row_height_spec(category);
    if n >= 1 { n as usize } else { 1 }
}

pub open spec fn sat_sub(a: usize, b: usize) -> usize {
    if a >= b { (a - b) as usize } else { 0 }
}

pub open spec fn min_usize(a: usize, b: usize) -> usize {
    if a <= b { a } else { b }
}

/// Number of rows of `category`: apps fill rows of three, recent items are
/// limited to one screen.
pub open spec fn total_rows_spec(s: HomeState, recents_len: nat, category: LauncherCategory) -> usize {
    match category {
        LauncherCategory::Apps => {
            let n = s.installed_apps@.len();
            ((n + 2) / 3) as usize
        },
        LauncherCategory::Recents => min_usize(recents_len as usize, visible_rows_spec(category)),
        LauncherCategory::Books => s.books_cache@.len() as usize,
        LauncherCategory::Images => s.images_cache@.len() as usize,
    }
}

/// Number of entries of the current category.
pub open spec fn content_len_spec(s: HomeState, recents_len: nat) -> usize {
    match s.launcher_category {
        LauncherCategory::Recents => min_usize(recents_len as usize, visible_rows_spec(LauncherCategory::Recents)),
        LauncherCategory::Apps => s.installed_apps@.len() as usize,
        LauncherCategory::Books => s.books_cache@.len() as usize,
        LauncherCategory::Images => s.images_cache@.len() as usize,
    }
}

/// The first row shown of `category`; recent items never scroll.
pub open spec fn top_row_spec(s: HomeState, category: LauncherCategory) -> usize {
    match category {
        LauncherCategory::Recents => 0,
        LauncherCategory::Apps => s.apps_top_row,
        LauncherCategory::Books => s.books_top_row,
        LauncherCategory::Images => s.images_top_row,
    }
}

pub open spec fn with_top_row(s: HomeState, category: LauncherCategory, top_row: usize) -> HomeState {
    match category {
        LauncherCategory::Recents => s,
        LauncherCategory::Apps => HomeState { apps_top_row: top_row, ..s },
        LauncherCategory::Books => HomeState { books_top_row: top_row, ..s },
        LauncherCategory::Images => HomeState { images_top_row: top_row, ..s },
    }
}

/// The row of the selected entry: apps sit three to a row.
pub open spec fn selected_row_spec(s: HomeState) -> usize {
    match s.launcher_category {
        LauncherCategory::Apps => s.start_menu_index / APP_GRID_COLS,
        LauncherCategory::Recents => 0,
        _ => s.start_menu_index,
    }
}

/// Scrolls the current category just enough to show the selected entry,
/// never past the end, and says whether it scrolled.
pub open spec fn ensure_visible_spec(s: HomeState, recents_len: nat) -> (HomeState, bool) {
    let category = s.launcher_category;
    let visible = visible_rows_spec(category);
    let total = total_rows_spec(s, recents_len, category);
    let top0 = top_row_spec(s, category);
    if category == LauncherCategory::Recents {
        (s, false)
    } else if total <= visible {
        (with_top_row(s, category, 0), top0 != 0)
    } else {
        let sel = selected_row_spec(s);
        let top1 = if sel < top0 { sel } else if sel >= top0 + visible { (sel + 1 - visible) as usize } else { top0 };
        let clamped = min_usize(top1, sat_sub(total, visible));
        (with_top_row(s, category, clamped), clamped != top0)
    }
}

/// The top rows stay clear of the end of `usize`, so that the rows under
/// them can be counted, and so does the number of apps (a list that long
/// could not be allocated anyway).
pub open spec fn tops_in_range(s: HomeState) -> bool {
    &&& s.installed_apps@.len() <= usize::MAX - 16
    &&& s.books_cache@.len() <= usize::MAX - 16
    &&& s.images_cache@.len() <= usize::MAX - 16
    &&& s.apps_top_row <= usize::MAX - 16
    &&& s.books_top_row <= usize::MAX - 16
    &&& s.images_top_row <= usize::MAX - 16
}

pub open spec fn launcher_object_id_spec(index: usize) -> ObjectId {
    let i = (index as u16) as int;
    if 1000 + i > 0xFFFF { 0xFFFFu16 } else { (1000 + i) as u16 }
}

pub open spec fn category_menu_object_id_spec(index: usize) -> ObjectId {
    let i = (index as u16) as int;
    if 2000 + i > 0xFFFF { 0xFFFFu16 } else { (2000 + i) as u16 }
}

pub open spec fn content_index_spec(object_id: ObjectId) -> Option<usize> {
    if object_id >= HOME_OBJ_CONTENT_BASE { Some((object_id - HOME_OBJ_CONTENT_BASE) as usize) } else { None }
}

pub open spec fn category_index_spec(object_id: ObjectId) -> Option<usize> {
    if HOME_OBJ_CATEGORY_MENU_BASE <= object_id < HOME_OBJ_CATEGORY_MENU_BASE + 16 {
        Some((object_id - HOME_OBJ_CATEGORY_MENU_BASE) as usize)
    } else {
        None
    }
}

/// The selection taken over from the focused object: the category trigger
/// or a category menu entry selects the actions, a content entry in range
/// selects that entry.
pub open spec fn selection_from_focus_spec(s: HomeState, recents_len: nat) -> HomeState {
    match s.ui_runtime.focus.object_id {
        None => s,
        Some(id) => if id == HOME_OBJ_DIALOG_DISMISS {
            s
        } else if id == HOME_OBJ_CATEGORY_TRIGGER {
            HomeState { start_menu_section: StartMenuSection::Actions, ..s }
        } else if category_index_spec(id) is Some {
            let index = category_index_spec(id)->0;
            HomeState {
                start_menu_section: StartMenuSection::Actions,
                category_menu_index: min_usize(index, 3),
                ..s
            }
        } else if content_index_spec(id) is Some && content_index_spec(id)->0 < content_len_spec(s, recents_len) {
            HomeState { start_menu_section: StartMenuSection::Recents, start_menu_index: content_index_spec(id)->0, ..s }
        } else {
            s
        },
    }
}

/// The object that should have the focus: the dialog's button, the open
/// category menu's entry, the category trigger, or the selected entry.
pub open spec fn focus_target_spec(s: HomeState, recents_len: nat) -> ObjectId {
    let len = content_len_spec(s, recents_len);
    if s.install_dialog is Some {
        HOME_OBJ_DIALOG_DISMISS
    } else if s.category_menu_open {
        category_menu_object_id_spec(min_usize(s.category_menu_index, 3))
    } else if s.start_menu_section == StartMenuSection::Actions {
        HOME_OBJ_CATEGORY_TRIGGER
    } else if len > 0 {
        launcher_object_id_spec(min_usize(s.start_menu_index, (len - 1) as usize))
    } else {
        HOME_OBJ_CATEGORY_TRIGGER
    }
}

/// The focus put on `target`, remembering the object that had it.
pub open spec fn focus_on(s: HomeState, target: ObjectId) -> HomeState {
    HomeState {
        prev_focus_object_id: s.ui_runtime.focus.object_id,
        ui_runtime: UiRuntime {
            focus: crate::ui::UiFocus { form_id: Some(HOME_FORM_ID), object_id: Some(target) },
        },
        ..s
    }
}

/// The focus moved to where the state says it belongs, and the selection
/// read back from it.
#[verifier::opaque]
pub open spec fn sync_focus_spec(s: HomeState, recents_len: nat) -> HomeState {
    selection_from_focus_spec(focus_on(s, focus_target_spec(s, recents_len)), recents_len)
}

/// The focus put on entry `index` (kept in range), scrolling it into view.
#[verifier::opaque]
pub open spec fn content_focus_spec(s: HomeState, recents_len: nat, index: usize) -> HomeState {
    let s1 = HomeState {
        start_menu_section: StartMenuSection::Recents,
        start_menu_index: min_usize(index, sat_sub(content_len_spec(s, recents_len), 1)),
        ..s
    };
    let (s2, scrolled) = ensure_visible_spec(s1, recents_len);
    let s3 = if scrolled { HomeState { start_menu_need_base_refresh: true, ..s2 } } else { s2 };
    focus_on(s3, launcher_object_id_spec(s3.start_menu_index))
}

/// Putting the focus on an entry keeps the top rows in range.
proof fn lemma_content_focus_in_range(s: HomeState, n: nat, index: usize)
    requires
        tops_in_range(s),
    ensures
        tops_in_range(content_focus_spec(s, n, index)),
{
    reveal(content_focus_spec);
}

/// The focus put on the category trigger.
pub open spec fn actions_focus_spec(s: HomeState) -> HomeState {
    focus_on(HomeState { start_menu_section: StartMenuSection::Actions, ..s }, HOME_OBJ_CATEGORY_TRIGGER)
}

impl HomeState {
    fn launcher_content_height() -> (h: i32)
        ensures
            h == content_height_spec(),
    {
        let mid_y = FB_HEIGHT as i32 - START_MENU_MARGIN;
        let list_top = HEADER_Y + 28;
        let h = mid_y - list_top;
        if h > 1 { h } else { 1 }
    }

    fn launcher_table_row_height(category: LauncherCategory) -> (h: i32)
        ensures
            h == row_height_spec(category),
    {
        match category {
            LauncherCategory::Apps => 120,
            LauncherCategory::Recents | LauncherCategory::Books | LauncherCategory::Images => 99,
        }
    }

    fn launcher_visible_rows_for_category(category: LauncherCategory) -> (n: usize)
        ensures
            n == visible_rows_spec(category),
            1 <= n <= 16,
    {
        let content_h = Self::launcher_content_height();
        let row_h = Self::launcher_table_row_height(category);
        let n = content_h / row_h;
        if n > 1 { n as usize } else { 1 }
    }

    fn launcher_total_rows_for_category(&self, recents: &[String], category: LauncherCategory) -> (n: usize)
        ensures
            n == total_rows_spec(*self, recents@.len(), category),
    {
        match category {
            LauncherCategory::Apps => {
                let n = self.installed_apps.len();
                n / APP_GRID_COLS + if n % APP_GRID_COLS != 0 { 1 } else { 0 }
            },
            LauncherCategory::Recents => {
                let v = Self::launcher_visible_rows_for_category(category);
                if recents.len() < v { recents.len() } else { v }
            },
            LauncherCategory::Books => self.books_cache.len(),
            LauncherCategory::Images => self.images_cache.len(),
        }
    }

    fn launcher_top_row_for_category(&self, category: LauncherCategory) -> (r: usize)
        ensures
            r == top_row_spec(*self, category),
    {
        match category {
            LauncherCategory::Recents => 0,
            LauncherCategory::Apps => self.apps_top_row,
            LauncherCategory::Books => self.books_top_row,
            LauncherCategory::Images => self.images_top_row,
        }
    }

    fn set_launcher_top_row_for_category(&mut self, category: LauncherCategory, top_row: usize)
        ensures
            *final(self) == with_top_row(*old(self), category, top_row),
    {
        match category {
            LauncherCategory::Recents => {},
            LauncherCategory::Apps => self.apps_top_row = top_row,
            LauncherCategory::Books => self.books_top_row = top_row,
            LauncherCategory::Images => self.images_top_row = top_row,
        }
    }

    fn ensure_launcher_selection_visible(&mut self, recents: &[String]) -> (changed: bool)
        requires
            tops_in_range(*old(self)),
            old(self).start_menu_index < usize::MAX,
        ensures
            (*final(self), changed) == ensure_visible_spec(*old(self), recents@.len()),
    {
        let category = self.launcher_category;
        if category == LauncherCategory::Recents {
            return false;
        }
        let visible_rows = Self::launcher_visible_rows_for_category(category);
        let total_rows = self.launcher_total_rows_for_category(recents, category);
        if total_rows <= visible_rows {
            let changed = self.launcher_top_row_for_category(category) != 0;
            self.set_launcher_top_row_for_category(category, 0);
            return changed;
        }
        let selected_row = match category {
            LauncherCategory::Apps => self.start_menu_index / APP_GRID_COLS,
            LauncherCategory::Books | LauncherCategory::Images => self.start_menu_index,
            LauncherCategory::Recents => 0,
        };
        let mut top_row = self.launcher_top_row_for_category(category);
        if selected_row < top_row {
            top_row = selected_row;
        } else if selected_row >= top_row + visible_rows {
            top_row = selected_row + 1 - visible_rows;
        }
        let max_top = total_rows.saturating_sub(visible_rows);
        let clamped = if top_row < max_top { top_row } else { max_top };
        let changed = clamped != self.launcher_top_row_for_category(category);
        self.set_launcher_top_row_for_category(category, clamped);
        changed
    }

    fn launcher_object_id_for_index(index: usize) -> (id: ObjectId)
        ensures
            id == launcher_object_id_spec(index),
    {
        HOME_OBJ_CONTENT_BASE.saturating_add(index as u16)
    }

    fn category_menu_object_id(index: usize) -> (id: ObjectId)
        ensures
            id == category_menu_object_id_spec(index),
    {
        HOME_OBJ_CATEGORY_MENU_BASE.saturating_add(index as u16)
    }

    fn content_index_from_object_id(object_id: ObjectId) -> (r: Option<usize>)
        ensures
            r == content_index_spec(object_id),
    {
        if object_id >= HOME_OBJ_CONTENT_BASE {
            Some((object_id - HOME_OBJ_CONTENT_BASE) as usize)
        } else {
            None
        }
    }

    fn category_index_from_object_id(object_id: ObjectId) -> (r: Option<usize>)
        ensures
            r == category_index_spec(object_id),
    {
        if object_id >= HOME_OBJ_CATEGORY_MENU_BASE && object_id < HOME_OBJ_CATEGORY_MENU_BASE + 16 {
            Some((object_id - HOME_OBJ_CATEGORY_MENU_BASE) as usize)
        } else {
            None
        }
    }

    fn start_menu_content_len(&self, recents: &[String]) -> (n: usize)
        ensures
            n == content_len_spec(*self, recents@.len()),
    {
        match self.launcher_category {
            LauncherCategory::Recents => {
                let v = Self::launcher_visible_rows_for_category(LauncherCategory::Recents);
                if recents.len() < v { recents.len() } else { v }
            },
            LauncherCategory::Apps => self.installed_apps.len(),
            LauncherCategory::Books => self.books_cache.len(),
            LauncherCategory::Images => self.images_cache.len(),
        }
    }

    fn sync_selection_from_ui_focus(&mut self, recents: &[String])
        ensures
            *final(self) == selection_from_focus_spec(*old(self), recents@.len()),
    {
        let object_id = match self.ui_runtime.focus.object_id {
            Some(id) => id,
            None => {
                return;
            },
        };
        if object_id == HOME_OBJ_DIALOG_DISMISS {
            return;
        }
        if object_id == HOME_OBJ_CATEGORY_TRIGGER {
            self.start_menu_section = StartMenuSection::Actions;
            return;
        }
        if let Some(index) = Self::category_index_from_object_id(object_id) {
            self.start_menu_section = StartMenuSection::Actions;
            self.category_menu_index = if index < 3 { index } else { 3 };
            return;
        }
        if let Some(index) = Self::content_index_from_object_id(object_id) {
            let content_len = self.start_menu_content_len(recents);
            if index < content_len {
                self.start_menu_section = StartMenuSection::Recents;
                self.start_menu_index = index;
            }
        }
    }

    fn sync_start_menu_focus(&mut self, recents: &[String])
        ensures
            *final(self) == sync_focus_spec(*old(self), recents@.len()),
    {
        let len = self.start_menu_content_len(recents);
        let target = if self.install_dialog.is_some() {
            HOME_OBJ_DIALOG_DISMISS
        } else if self.category_menu_open {
            Self::category_menu_object_id(if self.category_menu_index < 3 { self.category_menu_index } else { 3 })
        } else if self.start_menu_section == StartMenuSection::Actions {
            HOME_OBJ_CATEGORY_TRIGGER
        } else if len > 0 {
            let last = len - 1;
            Self::launcher_object_id_for_index(if self.start_menu_index < last { self.start_menu_index } else { last })
        } else {
            HOME_OBJ_CATEGORY_TRIGGER
        };
        self.prev_focus_object_id = self.ui_runtime.focus.object_id;
        self.ui_runtime.set_focus(HOME_FORM_ID, Some(target));
        self.sync_selection_from_ui_focus(recents);
        proof { reveal(sync_focus_spec); }
    }

    fn set_content_focus(&mut self, recents: &[String], index: usize)
        requires
            tops_in_range(*old(self)),
        ensures
            *final(self) == content_focus_spec(*old(self), recents@.len(), index),
    {
        self.start_menu_section = StartMenuSection::Recents;
        let last = self.start_menu_content_len(recents).saturating_sub(1);
        self.start_menu_index = if index < last { index } else { last };
        if self.ensure_launcher_selection_visible(recents) {
            self.start_menu_need_base_refresh = true;
        }
        self.prev_focus_object_id = self.ui_runtime.focus.object_id;
        self.ui_runtime.set_focus(HOME_FORM_ID, Some(Self::launcher_object_id_for_index(self.start_menu_index)));
        proof { reveal(content_focus_spec); }
    }

    fn set_actions_focus(&mut self)
        ensures
            *final(self) == actions_focus_spec(*old(self)),
    {
        self.start_menu_section = StartMenuSection::Actions;
        self.prev_focus_object_id = self.ui_runtime.focus.object_id;
        self.ui_runtime.set_focus(HOME_FORM_ID, Some(HOME_OBJ_CATEGORY_TRIGGER));
    }
}


/// The launcher event of the pressed buttons, by priority: Up, Down, Left,
/// Right, Confirm, Back.
pub open spec fn launcher_event_spec(b: ButtonState) -> Option<UiEvent> {
    if b.pressed(Buttons::Up) {
        Some(UiEvent::ButtonDown { button: ButtonId::Up })
    } else if b.pressed(Buttons::Down) {
        Some(UiEvent::ButtonDown { button: ButtonId::Down })
    } else if b.pressed(Buttons::Left) {
        Some(UiEvent::ButtonDown { button: ButtonId::Left })
    } else if b.pressed(Buttons::Right) {
        Some(UiEvent::ButtonDown { button: ButtonId::Right })
    } else if b.pressed(Buttons::Confirm) {
        Some(UiEvent::ButtonDown { button: ButtonId::Confirm })
    } else if b.pressed(Buttons::Back) {
        Some(UiEvent::ButtonDown { button: ButtonId::Back })
    } else {
        None
    }
}

pub open spec fn is_button(ev: Option<UiEvent>, id: ButtonId) -> bool {
    ev == Some(UiEvent::ButtonDown { button: id })
}

/// The categories in menu order.
pub open spec fn category_at(i: usize) -> LauncherCategory {
    if i == 0 {
        LauncherCategory::Recents
    } else if i == 1 {
        LauncherCategory::Apps
    } else if i == 2 {
        LauncherCategory::Books
    } else {
        LauncherCategory::Images
    }
}

pub open spec fn category_index_of(c: LauncherCategory) -> usize {
    match c {
        LauncherCategory::Recents => 0,
        LauncherCategory::Apps => 1,
        LauncherCategory::Books => 2,
        LauncherCategory::Images => 3,
    }
}

pub open spec fn nav(s: HomeState) -> HomeState {
    HomeState { start_menu_nav_pending: true, ..s }
}

/// The launcher brought up to date before a button is handled: the focus
/// put where it belongs, the selection kept inside the list and read back.
pub open spec fn input_prelude_spec(s: HomeState, n: nat) -> HomeState {
    let s1 = sync_focus_spec(s, n);
    let len = content_len_spec(s1, n);
    let s2 = if len > 0 && s1.start_menu_index >= len { HomeState { start_menu_index: (len - 1) as usize, ..s1 } } else { s1 };
    selection_from_focus_spec(s2, n)
}

/// The path that Confirm opens: the selected entry of the current category.
pub open spec fn selected_path_spec(s: HomeState, recents: Seq<String>) -> Option<String> {
    let i = s.start_menu_index as int;
    match s.launcher_category {
        LauncherCategory::Recents => if i < recents.len() { Some(recents[i]) } else { None },
        LauncherCategory::Apps => if i < s.installed_apps@.len() { Some(s.installed_apps@[i].path) } else { None },
        LauncherCategory::Books => if i < s.books_cache@.len() { Some(s.books_cache@[i].path) } else { None },
        LauncherCategory::Images => if i < s.images_cache@.len() { Some(s.images_cache@[i].path) } else { None },
    }
}

/// The open category menu under a button: Up and Down move through it, Confirm
/// picks the category (selecting its first entry), Back and Left close it.
pub open spec fn category_menu_input_spec(p: HomeState, n: nat, ev: Option<UiEvent>) -> HomeState {
    if is_button(ev, ButtonId::Up) {
        let i = sat_sub(p.category_menu_index, 1);
        nav(HomeState {
            category_menu_index: i,
            ui_runtime: UiRuntime {
                focus: crate::ui::UiFocus { form_id: Some(HOME_FORM_ID), object_id: Some(category_menu_object_id_spec(i)) },
            },
            ..p
        })
    } else if is_button(ev, ButtonId::Down) {
        let i = min_usize((p.category_menu_index + 1) as usize, 3);
        nav(HomeState {
            category_menu_index: i,
            ui_runtime: UiRuntime {
                focus: crate::ui::UiFocus { form_id: Some(HOME_FORM_ID), object_id: Some(category_menu_object_id_spec(i)) },
            },
            ..p
        })
    } else if is_button(ev, ButtonId::Confirm) {
        let s1 = HomeState { launcher_category: category_at(p.category_menu_index), category_menu_open: false, ..p };
        let s2 = content_focus_spec(s1, n, 0);
        sync_focus_spec(HomeState { start_menu_need_base_refresh: true, ..s2 }, n)
    } else if is_button(ev, ButtonId::Back) || is_button(ev, ButtonId::Left) {
        nav(actions_focus_spec(HomeState { category_menu_open: false, ..p }))
    } else {
        p
    }
}

/// The launcher's list under a button: Up, Down, Left and Right move
/// through the list (apps by rows of three) and between the list and the
/// category trigger, and Confirm opens the category menu from the trigger
/// or opens the selected entry.
pub open spec fn list_input_spec(p: HomeState, recents: Seq<String>, ev: Option<UiEvent>) -> (HomeState, HomeAction) {
    let n = recents.len();
    let len = content_len_spec(p, n);
    let idx = p.start_menu_index;
    let apps = p.launcher_category == LauncherCategory::Apps;
    let in_list = p.start_menu_section == StartMenuSection::Recents;
    if is_button(ev, ButtonId::Up) {
        let q = if !in_list {
            p
        } else if apps {
            if len > 0 && idx >= APP_GRID_COLS { content_focus_spec(p, n, (idx - APP_GRID_COLS) as usize) } else { actions_focus_spec(p) }
        } else if len > 0 && idx > 0 {
            content_focus_spec(p, n, (idx - 1) as usize)
        } else {
            actions_focus_spec(p)
        };
        (nav(q), HomeAction::Nothing)
    } else if is_button(ev, ButtonId::Down) {
        let q = if !in_list {
            content_focus_spec(p, n, 0)
        } else if apps {
            if len > 0 && idx + APP_GRID_COLS < len { content_focus_spec(p, n, (idx + APP_GRID_COLS) as usize) } else { p }
        } else if len > 0 && idx + 1 < len {
            content_focus_spec(p, n, (idx + 1) as usize)
        } else {
            p
        };
        (nav(q), HomeAction::Nothing)
    } else if is_button(ev, ButtonId::Left) {
        let q = if !in_list {
            p
        } else if apps {
            if len > 0 && idx > idx / APP_GRID_COLS * APP_GRID_COLS { nav(content_focus_spec(p, n, (idx - 1) as usize)) } else { p }
        } else {
            nav(actions_focus_spec(p))
        };
        (q, HomeAction::Nothing)
    } else if is_button(ev, ButtonId::Right) {
        let row_start = idx / APP_GRID_COLS * APP_GRID_COLS;
        let row_end = sat_sub(min_usize((row_start + APP_GRID_COLS) as usize, len), 1);
        let q = if !in_list {
            nav(content_focus_spec(p, n, idx))
        } else if apps && len > 0 && idx < row_end {
            nav(content_focus_spec(p, n, (idx + 1) as usize))
        } else {
            p
        };
        (q, HomeAction::Nothing)
    } else if is_button(ev, ButtonId::Confirm) {
        if !in_list {
            (
                nav(sync_focus_spec(
                    HomeState { category_menu_open: true, category_menu_index: category_index_of(p.launcher_category), ..p },
                    n,
                )),
                HomeAction::Nothing,
            )
        } else {
            match selected_path_spec(p, recents) {
                Some(path) => (p, HomeAction::OpenRecent(path)),
                None => (p, HomeAction::Nothing),
            }
        }
    } else {
        (p, HomeAction::Nothing)
    }
}

/// The launcher under a button press: first brought up to date (see
/// [`input_prelude_spec`]); then with the install dialog up, Confirm and
/// Back dismiss it; with the category menu open, see
/// [`category_menu_input_spec`]; otherwise see [`list_input_spec`].
pub open spec fn start_menu_input_spec(s: HomeState, recents: Seq<String>, b: ButtonState) -> (HomeState, HomeAction) {
    let n = recents.len();
    let p = input_prelude_spec(s, n);
    let ev = launcher_event_spec(b);
    if p.install_dialog is Some {
        if is_button(ev, ButtonId::Confirm) || is_button(ev, ButtonId::Back) {
            (sync_focus_spec(HomeState { install_dialog: None, start_menu_need_base_refresh: true, ..p }, n), HomeAction::Nothing)
        } else {
            (p, HomeAction::Nothing)
        }
    } else if p.category_menu_open {
        (category_menu_input_spec(p, n, ev), HomeAction::Nothing)
    } else {
        list_input_spec(p, recents, ev)
    }
}

/// Bringing the launcher up to date changes none of what the list is made of.
proof fn lemma_prelude_keeps_content(s: HomeState, n: nat)
    ensures
        ({
            let p = input_prelude_spec(s, n);
            &&& p.launcher_category == s.launcher_category
            &&& p.installed_apps == s.installed_apps
            &&& p.books_cache == s.books_cache
            &&& p.images_cache == s.images_cache
            &&& p.apps_top_row == s.apps_top_row
            &&& p.books_top_row == s.books_top_row
            &&& p.images_top_row == s.images_top_row
            &&& p.install_dialog == s.install_dialog
            &&& p.category_menu_open == s.category_menu_open
            &&& content_len_spec(p, n) == content_len_spec(s, n)
        }),
{
    reveal(sync_focus_spec);
}

impl HomeState {
    /// A launcher on the recent items, with nothing cached yet.
    pub fn new() -> (s: Self)
        ensures
            s.ui_runtime.focus.object_id is None,
            s.prev_focus_object_id is None,
            s.start_menu_section == StartMenuSection::Recents,
            s.launcher_category == LauncherCategory::Recents,
            s.start_menu_index == 0,
            !s.category_menu_open,
            s.category_menu_index == 0,
            s.start_menu_cache@.len() == 0,
            s.books_cache@.len() == 0,
            s.images_cache@.len() == 0,
            s.installed_apps@.len() == 0,
            s.apps_top_row == 0 && s.books_top_row == 0 && s.images_top_row == 0,
            s.touch_pressed_index is None,
            s.last_table_touch_rect is None && s.last_scrollbar_rect is None,
            s.last_category_trigger_rect is None && s.last_category_popup_rect is None,
            !s.start_menu_nav_pending,
            s.start_menu_need_base_refresh,
            s.install_dialog is None,
    {
        HomeState {
            ui_runtime: UiRuntime::new(),
            prev_focus_object_id: None,
            start_menu_section: StartMenuSection::Recents,
            launcher_category: LauncherCategory::Recents,
            start_menu_index: 0,
            category_menu_open: false,
            category_menu_index: 0,
            start_menu_cache: Vec::new(),
            books_cache: Vec::new(),
            images_cache: Vec::new(),
            installed_apps: Vec::new(),
            apps_top_row: 0,
            books_top_row: 0,
            images_top_row: 0,
            touch_pressed_index: None,
            last_table_touch_rect: None,
            last_scrollbar_rect: None,
            last_category_trigger_rect: None,
            last_category_popup_rect: None,
            start_menu_nav_pending: false,
            start_menu_need_base_refresh: true,
            install_dialog: None,
        }
    }

    fn launcher_event_from_buttons(buttons: &ButtonState) -> (ev: Option<UiEvent>)
        ensures
            ev == launcher_event_spec(*buttons),
    {
        if buttons.is_pressed(Buttons::Up) {
            Some(UiEvent::ButtonDown { button: ButtonId::Up })
        } else if buttons.is_pressed(Buttons::Down) {
            Some(UiEvent::ButtonDown { button: ButtonId::Down })
        } else if buttons.is_pressed(Buttons::Left) {
            Some(UiEvent::ButtonDown { button: ButtonId::Left })
        } else if buttons.is_pressed(Buttons::Right) {
            Some(UiEvent::ButtonDown { button: ButtonId::Right })
        } else if buttons.is_pressed(Buttons::Confirm) {
            Some(UiEvent::ButtonDown { button: ButtonId::Confirm })
        } else if buttons.is_pressed(Buttons::Back) {
            Some(UiEvent::ButtonDown { button: ButtonId::Back })
        } else {
            None
        }
    }

    /// Brings the launcher up to date before a button is handled; returns
    /// the length of its list.
    #[verifier::spinoff_prover]
    fn start_menu_prelude(&mut self, recents: &[String]) -> (len: usize)
        ensures
            *final(self) == input_prelude_spec(*old(self), recents@.len()),
            len == content_len_spec(*final(self), recents@.len()),
            len > 0 ==> final(self).start_menu_index < len,
            (final(self).category_menu_open && final(self).install_dialog is None) ==> final(self).category_menu_index <= 3,
    {
        proof {
            lemma_prelude_keeps_content(*old(self), recents@.len());
            reveal(sync_focus_spec);
        }
        self.sync_start_menu_focus(recents);
        let content_len = self.start_menu_content_len(recents);
        if content_len > 0 && self.start_menu_index >= content_len {
            self.start_menu_index = content_len - 1;
        }
        self.sync_selection_from_ui_focus(recents);
        content_len
    }

    /// The open category menu under a button; see [`category_menu_input_spec`].
    #[verifier::spinoff_prover]
    fn category_menu_input(&mut self, recents: &[String], event: Option<UiEvent>)
        requires
            tops_in_range(*old(self)),
            old(self).category_menu_index <= 3,
        ensures
            *final(self) == category_menu_input_spec(*old(self), recents@.len(), event),
    {
        if event_is(event, ButtonId::Up) {
            self.category_menu_index = self.category_menu_index.saturating_sub(1);
            self.ui_runtime.set_focus(HOME_FORM_ID, Some(Self::category_menu_object_id(self.category_menu_index)));
            self.start_menu_nav_pending = true;
            return;
        }
        if event_is(event, ButtonId::Down) {
            let next = self.category_menu_index + 1;
            self.category_menu_index = if next < 3 { next } else { 3 };
            self.ui_runtime.set_focus(HOME_FORM_ID, Some(Self::category_menu_object_id(self.category_menu_index)));
            self.start_menu_nav_pending = true;
            return;
        }
        if event_is(event, ButtonId::Confirm) {
            self.launcher_category = category_of_index(self.category_menu_index);
            self.category_menu_open = false;
            self.set_content_focus(recents, 0);
            self.start_menu_need_base_refresh = true;
            self.sync_start_menu_focus(recents);
            return;
        }
        if event_is(event, ButtonId::Back) || event_is(event, ButtonId::Left) {
            self.category_menu_open = false;
            self.set_actions_focus();
            self.start_menu_nav_pending = true;
        }
    }

    /// The list under a button; see [`list_input_spec`].
    #[verifier::spinoff_prover]
    #[verifier::rlimit(40)]
    fn list_input(&mut self, recents: &[String], event: Option<UiEvent>, content_len: usize) -> (action: HomeAction)
        requires
            tops_in_range(*old(self)),
            content_len == content_len_spec(*old(self), recents@.len()),
            content_len > 0 ==> old(self).start_menu_index < content_len,
        ensures
            (*final(self), action) == list_input_spec(*old(self), recents@, event),
    {
        if event_is(event, ButtonId::Up) {
            if self.start_menu_section == StartMenuSection::Recents {
                if self.launcher_category == LauncherCategory::Apps {
                    if content_len > 0 && self.start_menu_index >= APP_GRID_COLS {
                        self.set_content_focus(recents, self.start_menu_index - APP_GRID_COLS);
                    } else {
                        self.set_actions_focus();
                    }
                } else if content_len > 0 && self.start_menu_index > 0 {
                    self.set_content_focus(recents, self.start_menu_index - 1);
                } else {
                    self.set_actions_focus();
                }
            }
            self.start_menu_nav_pending = true;
            return HomeAction::Nothing;
        }

        if event_is(event, ButtonId::Down) {
            if self.start_menu_section == StartMenuSection::Actions {
                self.set_content_focus(recents, 0);
            } else if self.launcher_category == LauncherCategory::Apps {
                if content_len > 0 {
                    let next = self.start_menu_index + APP_GRID_COLS;
                    if next < content_len {
                        self.set_content_focus(recents, next);
                    }
                }
            } else if content_len > 0 && self.start_menu_index + 1 < content_len {
                self.set_content_focus(recents, self.start_menu_index + 1);
            }
            self.start_menu_nav_pending = true;
            return HomeAction::Nothing;
        }

        if event_is(event, ButtonId::Left) {
            if self.start_menu_section == StartMenuSection::Recents {
                if self.launcher_category == LauncherCategory::Apps {
                    if content_len > 0 {
                        let row_start = (self.start_menu_index / APP_GRID_COLS) * APP_GRID_COLS;
                        if self.start_menu_index > row_start {
                            self.set_content_focus(recents, self.start_menu_index - 1);
                            self.start_menu_nav_pending = true;
                        }
                    }
                } else {
                    self.set_actions_focus();
                    self.start_menu_nav_pending = true;
                }
            }
            return HomeAction::Nothing;
        }

        if event_is(event, ButtonId::Right) {
            if self.start_menu_section == StartMenuSection::Actions {
                self.set_content_focus(recents, self.start_menu_index);
                self.start_menu_nav_pending = true;
            } else if self.start_menu_section == StartMenuSection::Recents && self.launcher_category
                == LauncherCategory::Apps && content_len > 0 {
                let row_start = (self.start_menu_index / APP_GRID_COLS) * APP_GRID_COLS;
                let end = if row_start + APP_GRID_COLS < content_len { row_start + APP_GRID_COLS } else { content_len };
                let row_end = end.saturating_sub(1);
                if self.start_menu_index < row_end {
                    self.set_content_focus(recents, self.start_menu_index + 1);
                    self.start_menu_nav_pending = true;
                }
            }
            return HomeAction::Nothing;
        }

        if event_is(event, ButtonId::Confirm) {
            if self.start_menu_section == StartMenuSection::Actions {
                self.category_menu_open = true;
                self.category_menu_index = index_of_category(self.launcher_category);
                self.sync_start_menu_focus(recents);
                self.start_menu_nav_pending = true;
                return HomeAction::Nothing;
            } else if self.launcher_category == LauncherCategory::Recents {
                if self.start_menu_index < recents.len() {
                    return HomeAction::OpenRecent(recents[self.start_menu_index].clone());
                }
            } else if self.launcher_category == LauncherCategory::Apps {
                if self.start_menu_index < self.installed_apps.len() {
                    return HomeAction::OpenRecent(self.installed_apps[self.start_menu_index].path.clone());
                }
            } else if self.launcher_category == LauncherCategory::Books {
                if self.start_menu_index < self.books_cache.len() {
                    return HomeAction::OpenRecent(self.books_cache[self.start_menu_index].path.clone());
                }
            } else if self.launcher_category == LauncherCategory::Images {
                if self.start_menu_index < self.images_cache.len() {
                    return HomeAction::OpenRecent(self.images_cache[self.start_menu_index].path.clone());
                }
            }
        }
        HomeAction::Nothing
    }

    /// Handles the buttons on the launcher; see [`start_menu_input_spec`].
    pub fn handle_start_menu_input(&mut self, recents: &[String], buttons: &ButtonState) -> (action: HomeAction)
        requires
            tops_in_range(*old(self)),
        ensures
            (*final(self), action) == start_menu_input_spec(*old(self), recents@, *buttons),
    {
        proof { lemma_prelude_keeps_content(*old(self), recents@.len()); }
        let content_len = self.start_menu_prelude(recents);
        let event = Self::launcher_event_from_buttons(buttons);
        if self.install_dialog.is_some() {
            if event_is(event, ButtonId::Confirm) || event_is(event, ButtonId::Back) {
                self.install_dialog = None;
                self.start_menu_need_base_refresh = true;
                self.sync_start_menu_focus(recents);
            }
            return HomeAction::Nothing;
        }
        if self.category_menu_open {
            self.category_menu_input(recents, event);
            return HomeAction::Nothing;
        }
        self.list_input(recents, event, content_len)
    }
}

fn event_is(ev: Option<UiEvent>, id: ButtonId) -> (r: bool)
    ensures
        r == is_button(ev, id),
{
    match ev {
        Some(UiEvent::ButtonDown { button }) => button == id,
        None => false,
    }
}

fn category_of_index(i: usize) -> (c: LauncherCategory)
    ensures
        c == category_at(i),
{
    if i == 0 {
        LauncherCategory::Recents
    } else if i == 1 {
        LauncherCategory::Apps
    } else if i == 2 {
        LauncherCategory::Books
    } else {
        LauncherCategory::Images
    }
}

fn index_of_category(c: LauncherCategory) -> (i: usize)
    ensures
        i == category_index_of(c),
{
    match c {
        LauncherCategory::Recents => 0,
        LauncherCategory::Apps => 1,
        LauncherCategory::Books => 2,
        LauncherCategory::Images => 3,
    }
}


/// The category trigger, at the top right.
pub open spec fn trigger_rect_spec(width: i32) -> Rect {
    Rect { x: (width - 96) as i32, y: START_MENU_FORM_Y, w: 92, h: 24 }
}

/// The category menu, dropping from the top right.
pub open spec fn popup_rect_spec(width: i32) -> Rect {
    Rect { x: (width - 140) as i32, y: START_MENU_FORM_Y, w: 136, h: 84 }
}

/// The category list scrolled so that `top_row` comes first (never past the
/// end), selecting the first entry shown.
#[verifier::opaque]
pub open spec fn scroll_to_spec(s: HomeState, n: nat, top_row: usize) -> HomeState {
    let category = s.launcher_category;
    let visible = visible_rows_spec(category);
    let total = total_rows_spec(s, n, category);
    let top = min_usize(top_row, sat_sub(total, visible));
    let s1 = with_top_row(s, category, top);
    let index = match category {
        LauncherCategory::Apps => min_usize((top * APP_GRID_COLS) as usize, sat_sub(s.installed_apps@.len() as usize, 1)),
        LauncherCategory::Books => min_usize(top, sat_sub(s.books_cache@.len() as usize, 1)),
        LauncherCategory::Images => min_usize(top, sat_sub(s.images_cache@.len() as usize, 1)),
        LauncherCategory::Recents => s.start_menu_index,
    };
    sync_focus_spec(
        HomeState { start_menu_index: index, start_menu_nav_pending: true, start_menu_need_base_refresh: true, ..s1 },
        n,
    )
}

/// The path of entry `i` of `category`.
pub open spec fn entry_path_spec(s: HomeState, recents: Seq<String>, category: LauncherCategory, i: usize) -> Option<String> {
    match category {
        LauncherCategory::Recents => if i < recents.len() { Some(recents[i as int]) } else { None },
        LauncherCategory::Apps => if i < s.installed_apps@.len() { Some(s.installed_apps@[i as int].path) } else { None },
        LauncherCategory::Books => if i < s.books_cache@.len() { Some(s.books_cache@[i as int].path) } else { None },
        LauncherCategory::Images => if i < s.images_cache@.len() { Some(s.images_cache@[i as int].path) } else { None },
    }
}

pub open spec fn open_action(p: Option<String>) -> HomeAction {
    match p {
        Some(path) => HomeAction::OpenRecent(path),
        None => HomeAction::Nothing,
    }
}

/// The apps grid numbers its cells within 32 bits.
pub open spec fn hit_fits(category: LauncherCategory, table_hit: Option<(usize, usize)>) -> bool {
    match table_hit {
        Some((row, col)) => category == LauncherCategory::Apps ==> row * 3 + col <= u32::MAX,
        None => true,
    }
}

/// The entry of the table cell `(row, col)`: apps sit three to a row.
pub open spec fn item_index_spec(category: LauncherCategory, row: usize, col: usize) -> usize {
    if category == LauncherCategory::Apps { (row * APP_GRID_COLS + col) as usize } else { row }
}

/// The list under a tap on its scroll bar: a row up or down, or to the
/// position tapped on the track.
pub open spec fn scroll_bar_spec(s: HomeState, n: nat, hit: TableScrollBarHit) -> HomeState {
    let top = top_row_spec(s, s.launcher_category);
    match hit {
        TableScrollBarHit::ArrowUp => scroll_to_spec(s, n, sat_sub(top, 1)),
        TableScrollBarHit::ArrowDown => scroll_to_spec(s, n, if top == usize::MAX { top } else { (top + 1) as usize }),
        TableScrollBarHit::Track { top_row } => scroll_to_spec(s, n, top_row),
    }
}

/// A tap on the launcher's list: an entry under the point is selected, and
/// opened when the tap lifts where it went down; the scroll bar scrolls.
pub open spec fn list_touch_spec(
    s: HomeState,
    recents: Seq<String>,
    is_down: bool,
    is_up: bool,
    has_scrollbar: bool,
    table_hit: Option<(usize, usize)>,
    scrollbar_hit: Option<TableScrollBarHit>,
) -> (HomeState, HomeAction) {
    let n = recents.len();
    let category = s.launcher_category;
    let item = match table_hit {
        Some((row, col)) => Some(item_index_spec(category, row, col)),
        None => None,
    };
    let picked = item is Some && item->0 < content_len_spec(s, n);
    let s1 = if picked { nav(content_focus_spec(s, n, item->0)) } else { s };
    if picked && is_down {
        (HomeState { touch_pressed_index: item, ..s1 }, HomeAction::Nothing)
    } else if picked && is_up && s1.touch_pressed_index == item {
        (HomeState { touch_pressed_index: None, ..s1 }, open_action(entry_path_spec(s1, recents, category, item->0)))
    } else {
        let s2 = if has_scrollbar && scrollbar_hit is Some {
            scroll_bar_spec(HomeState { touch_pressed_index: None, ..s1 }, n, scrollbar_hit->0)
        } else {
            s1
        };
        (if is_up { HomeState { touch_pressed_index: None, ..s2 } } else { s2 }, HomeAction::Nothing)
    }
}

/// A tap on the launcher. The install dialog swallows taps; an open
/// category menu takes a tap going down inside it as a choice (one entry per
/// quarter of its height) and closes on a tap outside; a tap going down on
/// the category trigger opens the menu; otherwise see [`list_touch_spec`].
pub open spec fn start_menu_touch_spec(
    s: HomeState,
    recents: Seq<String>,
    event: PlatformInputEvent,
    width: i32,
    table_hit: Option<(usize, usize)>,
    scrollbar_hit: Option<TableScrollBarHit>,
) -> (HomeState, HomeAction) {
    let n = recents.len();
    let (point, is_down, is_up) = match event {
        PlatformInputEvent::TouchDown { x, y } => (Point { x, y }, true, false),
        PlatformInputEvent::TouchUp { x, y } => (Point { x, y }, false, true),
        PlatformInputEvent::TouchMove { x, y } => (Point { x, y }, false, false),
    };
    let trigger = match s.last_category_trigger_rect {
        Some(r) => r,
        None => trigger_rect_spec(width),
    };
    let popup = match s.last_category_popup_rect {
        Some(r) => r,
        None => popup_rect_spec(width),
    };
    let has_scrollbar = s.last_scrollbar_rect is Some || s.launcher_category != LauncherCategory::Recents;
    if s.install_dialog is Some || !(is_down || is_up) {
        (s, HomeAction::Nothing)
    } else if s.category_menu_open {
        if popup.contains_spec(point) && is_down {
            let q = div_trunc(popup.h as int, 4);
            let item_h = if q >= 1 { q } else { 1 };
            let i = div_trunc(point.y - popup.y, item_h);
            let idx = (if i < 0 { 0 } else if i > 3 { 3 } else { i }) as usize;
            let s1 = HomeState {
                launcher_category: category_at(idx),
                category_menu_index: idx,
                category_menu_open: false,
                touch_pressed_index: None,
                ..s
            };
            (HomeState { start_menu_need_base_refresh: true, ..content_focus_spec(s1, n, 0) }, HomeAction::Nothing)
        } else if is_down {
            (
                sync_focus_spec(
                    HomeState { category_menu_open: false, start_menu_need_base_refresh: true, start_menu_nav_pending: true, ..s },
                    n,
                ),
                HomeAction::Nothing,
            )
        } else {
            (s, HomeAction::Nothing)
        }
    } else if trigger.contains_spec(point) && is_down {
        let s1 = actions_focus_spec(s);
        (
            sync_focus_spec(
                HomeState {
                    category_menu_index: category_index_of(s.launcher_category),
                    category_menu_open: true,
                    start_menu_need_base_refresh: true,
                    start_menu_nav_pending: true,
                    ..s1
                },
                n,
            ),
            HomeAction::Nothing,
        )
    } else {
        list_touch_spec(s, recents, is_down, is_up, has_scrollbar, table_hit, scrollbar_hit)
    }
}

/// Whether a file name, compared without regard to case, ends in one of the
/// picture extensions the launcher lists: `.tri`, `.trimg`, `.png`, `.jpg`, `.jpeg`.
pub open spec fn image_name_spec(name: Seq<u8>) -> bool {
    let l = crate::palm::text::lower(name);
    ||| seq![0x2Eu8, 0x74, 0x72, 0x69].is_suffix_of(l)
    ||| seq![0x2Eu8, 0x74, 0x72, 0x69, 0x6D, 0x67].is_suffix_of(l)
    ||| seq![0x2Eu8, 0x70, 0x6E, 0x67].is_suffix_of(l)
    ||| seq![0x2Eu8, 0x6A, 0x70, 0x67].is_suffix_of(l)
    ||| seq![0x2Eu8, 0x6A, 0x70, 0x65, 0x67].is_suffix_of(l)
}

/// Whether the launcher lists `name` among the pictures; see [`image_name_spec`].
pub fn is_launcher_image_name(name: &str) -> (r: bool)
    ensures
        r == image_name_spec(name.spec_bytes()),
{
    let lower = crate::palm::text::to_lower(name.as_bytes());
    let tri: [u8; 4] = [0x2E, 0x74, 0x72, 0x69];
    let trimg: [u8; 6] = [0x2E, 0x74, 0x72, 0x69, 0x6D, 0x67];
    let png: [u8; 4] = [0x2E, 0x70, 0x6E, 0x67];
    let jpg: [u8; 4] = [0x2E, 0x6A, 0x70, 0x67];
    let jpeg: [u8; 5] = [0x2E, 0x6A, 0x70, 0x65, 0x67];
    let l = lower.as_slice();
    let r = crate::palm::text::ends_with(l, &tri) || crate::palm::text::ends_with(l, &trimg)
        || crate::palm::text::ends_with(l, &png) || crate::palm::text::ends_with(l, &jpg)
        || crate::palm::text::ends_with(l, &jpeg);
    proof {
        assert(tri@ =~= seq![0x2Eu8, 0x74, 0x72, 0x69]);
        assert(trimg@ =~= seq![0x2Eu8, 0x74, 0x72, 0x69, 0x6D, 0x67]);
        assert(png@ =~= seq![0x2Eu8, 0x70, 0x6E, 0x67]);
        assert(jpg@ =~= seq![0x2Eu8, 0x6A, 0x70, 0x67]);
        assert(jpeg@ =~= seq![0x2Eu8, 0x6A, 0x70, 0x65, 0x67]);
    }
    r
}

/// The message of the install dialog.
pub open spec fn install_message_spec(summary: InstallSummary) -> Seq<char> {
    let base = "Scanned "@ + crate::palm::text::ascii_chars(crate::palm::text::decimal(summary.scanned as nat))
        + " files.\nInstalled: "@ + crate::palm::text::ascii_chars(crate::palm::text::decimal(summary.installed as nat))
        + "\nUpgraded: "@ + crate::palm::text::ascii_chars(crate::palm::text::decimal(summary.upgraded as nat))
        + "\nSkipped: "@ + crate::palm::text::ascii_chars(crate::palm::text::decimal(summary.skipped as nat))
        + "\nFailed: "@ + crate::palm::text::ascii_chars(crate::palm::text::decimal(summary.failed as nat));
    if summary.failed > 0 { base + "\n\nCheck logs for install errors."@ } else { base }
}

fn decimal_string(n: usize) -> (s: String)
    ensures
        s@ == crate::palm::text::ascii_chars(crate::palm::text::decimal(n as nat)),
{
    let mut digits: Vec<u8> = Vec::new();
    crate::palm::text::push_decimal_usize(&mut digits, n);
    proof {
        assert(digits@ =~= crate::palm::text::decimal(n as nat));
        crate::palm::text::lemma_decimal_printable(n as nat);
        crate::palm::text::lemma_printable_ascii(digits@);
    }
    crate::palm::text::ascii_string(digits.as_slice())
}

/// The launcher's table and, for the categories that scroll, the scroll
/// bar beside it, on a screen of the given size: the table starts under the
/// header and reaches the bottom margin (at least one pixel high).
pub open spec fn table_layout_spec(category: LauncherCategory, width: i32, height: i32) -> (Rect, Option<Rect>) {
    let list_top = HEADER_Y + 28;
    let d = height - START_MENU_MARGIN - list_top;
    let content_h = if d > 1 { d } else { 1 };
    let has_scrollbar = category != LauncherCategory::Recents;
    let scrollbar_w = if has_scrollbar { 12int } else { 0int };
    let table = Rect {
        x: (START_MENU_MARGIN - 4) as i32,
        y: (list_top - 4) as i32,
        w: (width - START_MENU_MARGIN * 2 + 8 - scrollbar_w) as i32,
        h: content_h as i32,
    };
    let bar = if has_scrollbar {
        Some(Rect { x: (table.x + table.w + 1) as i32, y: list_top as i32, w: 11, h: (content_h - 8) as i32 })
    } else {
        None
    };
    (table, bar)
}

/// The entry that `id` stands for, when it is one of the list's entries.
pub open spec fn listed_index_spec(s: HomeState, n: nat, id: Option<ObjectId>) -> Option<usize> {
    match id {
        Some(object_id) => match content_index_spec(object_id) {
            Some(i) => if i < content_len_spec(s, n) { Some(i) } else { None },
            None => None,
        },
        None => None,
    }
}

impl HomeState {
    fn launcher_category_trigger_rect(width: i32) -> (r: Rect)
        requires
            width >= i32::MIN + 140,
        ensures
            r == trigger_rect_spec(width),
    {
        Rect::new(width - 96, START_MENU_FORM_Y, 92, 24)
    }

    fn launcher_category_popup_rect(width: i32) -> (r: Rect)
        requires
            width >= i32::MIN + 140,
        ensures
            r == popup_rect_spec(width),
    {
        Rect::new(width - 140, START_MENU_FORM_Y, 136, 84)
    }

    /// Where the launcher's table and scroll bar go; see [`table_layout_spec`].
    pub fn launcher_table_layout(category: LauncherCategory, width: i32, height: i32) -> (r: (Rect, Option<Rect>))
        requires
            width >= i32::MIN + 36,
            height >= i32::MIN + 102,
        ensures
            r == table_layout_spec(category, width, height),
    {
        let list_top = HEADER_Y + 28;
        let mid_y = height - START_MENU_MARGIN;
        let list_width = width - (START_MENU_MARGIN * 2);
        let d = mid_y - list_top;
        let content_h = if d > 1 { d } else { 1 };
        let has_scrollbar = match category {
            LauncherCategory::Apps | LauncherCategory::Books | LauncherCategory::Images => true,
            LauncherCategory::Recents => false,
        };
        let scrollbar_w: i32 = if has_scrollbar { 12 } else { 0 };
        let table_rect = Rect::new(START_MENU_MARGIN - 4, list_top - 4, list_width + 8 - scrollbar_w, content_h);
        let scrollbar_rect = if has_scrollbar {
            Some(Rect::new(table_rect.x + table_rect.w + 1, list_top, scrollbar_w - 1, content_h - 8))
        } else {
            None
        };
        (table_rect, scrollbar_rect)
    }

    /// Keeps the first row shown of `category` from scrolling past its end.
    pub fn clamp_launcher_top_row_for_category(&mut self, recents: &[String], category: LauncherCategory)
        ensures
            *final(self) == with_top_row(
                *old(self),
                category,
                min_usize(
                    top_row_spec(*old(self), category),
                    sat_sub(total_rows_spec(*old(self), recents@.len(), category), visible_rows_spec(category)),
                ),
            ),
    {
        let visible_rows = Self::launcher_visible_rows_for_category(category);
        let total_rows = self.launcher_total_rows_for_category(recents, category);
        let max_top = total_rows.saturating_sub(visible_rows);
        let current = self.launcher_top_row_for_category(category);
        let top_row = if current < max_top { current } else { max_top };
        self.set_launcher_top_row_for_category(category, top_row);
    }

    /// The entry that has the focus, if the focus is on one of the list's entries.
    pub fn selected_content_index(&self, recents: &[String]) -> (r: Option<usize>)
        ensures
            r == listed_index_spec(*self, recents@.len(), self.ui_runtime.focus.object_id),
    {
        let object_id = match self.ui_runtime.focus.object_id {
            Some(id) => id,
            None => {
                return None;
            },
        };
        let index = match Self::content_index_from_object_id(object_id) {
            Some(i) => i,
            None => {
                return None;
            },
        };
        let content_len = self.start_menu_content_len(recents);
        if index < content_len { Some(index) } else { None }
    }

    /// The entry that had the focus before, if it is one of the list's entries.
    pub fn previous_content_index(&self, recents: &[String]) -> (r: Option<usize>)
        ensures
            r == listed_index_spec(*self, recents@.len(), self.prev_focus_object_id),
    {
        let object_id = match self.prev_focus_object_id {
            Some(id) => id,
            None => {
                return None;
            },
        };
        let index = match Self::content_index_from_object_id(object_id) {
            Some(i) => i,
            None => {
                return None;
            },
        };
        let content_len = self.start_menu_content_len(recents);
        if index < content_len { Some(index) } else { None }
    }

    fn scroll_launcher_to(&mut self, recents: &[String], top_row: usize)
        requires
            tops_in_range(*old(self)),
        ensures
            *final(self) == scroll_to_spec(*old(self), recents@.len(), top_row),
    {
        let category = self.launcher_category;
        let visible_rows = Self::launcher_visible_rows_for_category(category);
        let total_rows = self.launcher_total_rows_for_category(recents, category);
        let max_top = total_rows.saturating_sub(visible_rows);
        let top_row = if top_row < max_top { top_row } else { max_top };
        self.set_launcher_top_row_for_category(category, top_row);
        self.start_menu_index = match category {
            LauncherCategory::Apps => {
                let first = top_row * APP_GRID_COLS;
                let last = self.installed_apps.len().saturating_sub(1);
                if first < last { first } else { last }
            },
            LauncherCategory::Books => {
                let last = self.books_cache.len().saturating_sub(1);
                if top_row < last { top_row } else { last }
            },
            LauncherCategory::Images => {
                let last = self.images_cache.len().saturating_sub(1);
                if top_row < last { top_row } else { last }
            },
            LauncherCategory::Recents => self.start_menu_index,
        };
        self.start_menu_nav_pending = true;
        self.start_menu_need_base_refresh = true;
        self.sync_start_menu_focus(recents);
        proof { reveal(scroll_to_spec); }
    }

    /// Handles a tap on the launcher, given what the list's table and its
    /// scroll bar report under the point (`table_hit` as the row and column
    /// of a cell); see [`start_menu_touch_spec`].
    #[verifier::spinoff_prover]
    #[verifier::rlimit(40)]
    pub fn handle_start_menu_touch(
        &mut self,
        recents: &[String],
        event: &PlatformInputEvent,
        width: i32,
        height: i32,
        table_hit: Option<(usize, usize)>,
        scrollbar_hit: Option<TableScrollBarHit>,
    ) -> (action: HomeAction)
        requires
            tops_in_range(*old(self)),
            width >= i32::MIN + 140,
            hit_fits(old(self).launcher_category, table_hit),
        ensures
            (*final(self), action) == start_menu_touch_spec(*old(self), recents@, *event, width, table_hit, scrollbar_hit),
    {
        if self.install_dialog.is_some() {
            return HomeAction::Nothing;
        }
        let category = self.launcher_category;
        let (point, is_down, is_up) = match *event {
            PlatformInputEvent::TouchDown { x, y } => (Point::new(x, y), true, false),
            PlatformInputEvent::TouchUp { x, y } => (Point::new(x, y), false, true),
            _ => {
                return HomeAction::Nothing;
            },
        };
        let trigger_rect = match self.last_category_trigger_rect {
            Some(r) => r,
            None => Self::launcher_category_trigger_rect(width),
        };
        let popup_rect = match self.last_category_popup_rect {
            Some(r) => r,
            None => Self::launcher_category_popup_rect(width),
        };

        if self.category_menu_open {
            if popup_rect.contains(point) && is_down {
                let q = if popup_rect.h >= 0 { popup_rect.h / 4 } else { 0 - ((0 - popup_rect.h as i64) / 4) as i32 };
                let item_h = if q > 1 { q } else { 1 };
                let i = (point.y - popup_rect.y) / item_h;
                let idx: usize = if i < 0 { 0 } else if i > 3 { 3 } else { i as usize };
                self.launcher_category = category_of_index(idx);
                self.category_menu_index = idx;
                self.category_menu_open = false;
                self.touch_pressed_index = None;
                self.set_content_focus(recents, 0);
                self.start_menu_need_base_refresh = true;
                return HomeAction::Nothing;
            }
            if is_down && !popup_rect.contains(point) {
                self.category_menu_open = false;
                self.start_menu_need_base_refresh = true;
                self.start_menu_nav_pending = true;
                self.sync_start_menu_focus(recents);
            }
            return HomeAction::Nothing;
        }

        if trigger_rect.contains(point) && is_down {
            self.set_actions_focus();
            self.category_menu_index = index_of_category(self.launcher_category);
            self.category_menu_open = true;
            self.start_menu_need_base_refresh = true;
            self.start_menu_nav_pending = true;
            self.sync_start_menu_focus(recents);
            return HomeAction::Nothing;
        }

        let has_scrollbar = self.last_scrollbar_rect.is_some() || category != LauncherCategory::Recents;
        self.list_touch(recents, is_down, is_up, has_scrollbar, table_hit, scrollbar_hit)
    }

    /// A tap on the list; see [`list_touch_spec`].
    #[verifier::spinoff_prover]
    #[verifier::rlimit(80)]
    fn list_touch(
        &mut self,
        recents: &[String],
        is_down: bool,
        is_up: bool,
        has_scrollbar: bool,
        table_hit: Option<(usize, usize)>,
        scrollbar_hit: Option<TableScrollBarHit>,
    ) -> (action: HomeAction)
        requires
            tops_in_range(*old(self)),
            hit_fits(old(self).launcher_category, table_hit),
        ensures
            (*final(self), action) == list_touch_spec(*old(self), recents@, is_down, is_up, has_scrollbar, table_hit, scrollbar_hit),
    {
        let category = self.launcher_category;
        if let Some((row, col)) = table_hit {
            let item_index = if category == LauncherCategory::Apps { row * APP_GRID_COLS + col } else { row };
            if item_index < self.start_menu_content_len(recents) {
                proof { lemma_content_focus_in_range(*self, recents@.len(), item_index); }
                self.set_content_focus(recents, item_index);
                self.start_menu_nav_pending = true;
                if is_down {
                    self.touch_pressed_index = Some(item_index);
                    return HomeAction::Nothing;
                }
                if is_up && self.touch_pressed_index == Some(item_index) {
                    self.touch_pressed_index = None;
                    return self.entry_action(recents, category, item_index);
                }
            }
        }

        if has_scrollbar {
            if let Some(hit) = scrollbar_hit {
                self.touch_pressed_index = None;
                self.scroll_bar_touch(recents, hit);
            }
        }

        if is_up {
            self.touch_pressed_index = None;
        }
        HomeAction::Nothing
    }

    /// A tap on the list's scroll bar; see [`scroll_bar_spec`].
    fn scroll_bar_touch(&mut self, recents: &[String], hit: TableScrollBarHit)
        requires
            tops_in_range(*old(self)),
        ensures
            *final(self) == scroll_bar_spec(*old(self), recents@.len(), hit),
    {
        let top_row = self.launcher_top_row_for_category(self.launcher_category);
        match hit {
            TableScrollBarHit::ArrowUp => {
                self.scroll_launcher_to(recents, top_row.saturating_sub(1));
            },
            TableScrollBarHit::ArrowDown => {
                self.scroll_launcher_to(recents, top_row.saturating_add(1));
            },
            TableScrollBarHit::Track { top_row } => {
                self.scroll_launcher_to(recents, top_row);
            },
        }
    }

    /// Opening entry `i` of `category`, when there is one.
    fn entry_action(&self, recents: &[String], category: LauncherCategory, i: usize) -> (a: HomeAction)
        ensures
            a == open_action(entry_path_spec(*self, recents@, category, i)),
    {
        match category {
            LauncherCategory::Recents => if i < recents.len() {
                HomeAction::OpenRecent(recents[i].clone())
            } else {
                HomeAction::Nothing
            },
            LauncherCategory::Apps => if i < self.installed_apps.len() {
                HomeAction::OpenRecent(self.installed_apps[i].path.clone())
            } else {
                HomeAction::Nothing
            },
            LauncherCategory::Books => if i < self.books_cache.len() {
                HomeAction::OpenRecent(self.books_cache[i].path.clone())
            } else {
                HomeAction::Nothing
            },
            LauncherCategory::Images => if i < self.images_cache.len() {
                HomeAction::OpenRecent(self.images_cache[i].path.clone())
            } else {
                HomeAction::Nothing
            },
        }
    }

    /// Shows the outcome of an install run.
    pub fn show_install_summary_dialog(&mut self, summary: InstallSummary)
        ensures
            final(self).install_dialog matches Some(d) && d.title@ == "Install"@ && d.message@ == install_message_spec(summary),
            final(self).start_menu_need_base_refresh,
            *final(self) == (HomeState {
                install_dialog: final(self).install_dialog,
                start_menu_need_base_refresh: true,
                ..*old(self)
            }),
    {
        let mut msg = "Scanned ".to_owned();
        msg.append(decimal_string(summary.scanned).as_str());
        msg.append(" files.\nInstalled: ");
        msg.append(decimal_string(summary.installed).as_str());
        msg.append("\nUpgraded: ");
        msg.append(decimal_string(summary.upgraded).as_str());
        msg.append("\nSkipped: ");
        msg.append(decimal_string(summary.skipped).as_str());
        msg.append("\nFailed: ");
        msg.append(decimal_string(summary.failed).as_str());
        if summary.failed > 0 {
            msg.append("\n\nCheck logs for install errors.");
        }
        self.install_dialog = Some(InstallDialogState { title: "Install".to_owned(), message: msg });
        self.start_menu_need_base_refresh = true;
    }

    /// Whether the cached previews are those of `recents`, in order.
    pub fn start_menu_cache_same(&self, recents: &[String]) -> (r: bool)
        ensures
            r == (recents@.len() == self.start_menu_cache@.len() && forall|i: int|
                0 <= i < recents@.len() ==> (#[trigger] recents@[i])@ == self.start_menu_cache@[i].path@),
    {
        if recents.len() != self.start_menu_cache.len() {
            return false;
        }
        let mut i: usize = 0;
        while i < recents.len()
            invariant
                recents@.len() == self.start_menu_cache@.len(),
                i <= recents@.len(),
                forall|j: int| 0 <= j < i ==> (#[trigger] recents@[j])@ == self.start_menu_cache@[j].path@,
            decreases recents@.len() - i,
        {
            if recents[i] != self.start_menu_cache[i].path {
                return false;
            }
            i += 1;
        }
        true
    }
}


/// The selected entry, when the list has any, is one of them.
pub open spec fn selection_in_list(s: HomeState, n: nat) -> bool {
    content_len_spec(s, n) > 0 ==> s.start_menu_index < content_len_spec(s, n)
}

/// Two launcher states whose lists are made of the same entries.
pub open spec fn same_content(a: HomeState, b: HomeState) -> bool {
    &&& a.launcher_category == b.launcher_category
    &&& a.installed_apps@.len() == b.installed_apps@.len()
    &&& a.books_cache@.len() == b.books_cache@.len()
    &&& a.images_cache@.len() == b.images_cache@.len()
}

proof fn lemma_sync_keeps_selection(s: HomeState, n: nat)
    ensures
        same_content(sync_focus_spec(s, n), s),
        selection_in_list(s, n) ==> selection_in_list(sync_focus_spec(s, n), n),
        selection_in_list(s, n) ==> selection_in_list(selection_from_focus_spec(s, n), n),
        same_content(selection_from_focus_spec(s, n), s),
{
    reveal(sync_focus_spec);
}

proof fn lemma_content_focus_selects_in_list(s: HomeState, n: nat, index: usize)
    ensures
        same_content(content_focus_spec(s, n, index), s),
        selection_in_list(content_focus_spec(s, n, index), n),
{
    reveal(content_focus_spec);
}

/// Whatever button is pressed, the launcher's selection ends up on one of
/// the entries of its list (when the list has any).
#[verifier::spinoff_prover]
#[verifier::rlimit(40)]
pub proof fn lemma_input_keeps_selection_in_list(s: HomeState, recents: Seq<String>, b: ButtonState)
    ensures
        selection_in_list(start_menu_input_spec(s, recents, b).0, recents.len()),
{
    let n = recents.len();
    let s1 = sync_focus_spec(s, n);
    lemma_sync_keeps_selection(s, n);
    let len = content_len_spec(s1, n);
    let s2 = if len > 0 && s1.start_menu_index >= len { HomeState { start_menu_index: (len - 1) as usize, ..s1 } } else { s1 };
    assert(selection_in_list(s2, n));
    lemma_sync_keeps_selection(s2, n);
    let p = input_prelude_spec(s, n);
    assert(selection_in_list(p, n));
    let ev = launcher_event_spec(b);
    if p.install_dialog is Some {
        lemma_sync_keeps_selection(HomeState { install_dialog: None, start_menu_need_base_refresh: true, ..p }, n);
    } else if p.category_menu_open {
        if is_button(ev, ButtonId::Confirm) {
            let c1 = HomeState { launcher_category: category_at(p.category_menu_index), category_menu_open: false, ..p };
            lemma_content_focus_selects_in_list(c1, n, 0);
            let c2 = content_focus_spec(c1, n, 0);
            lemma_sync_keeps_selection(HomeState { start_menu_need_base_refresh: true, ..c2 }, n);
        }
    } else {
        let len = content_len_spec(p, n);
        let idx = p.start_menu_index;
        lemma_content_focus_selects_in_list(p, n, 0);
        lemma_content_focus_selects_in_list(p, n, idx);
        if idx >= APP_GRID_COLS {
            lemma_content_focus_selects_in_list(p, n, (idx - APP_GRID_COLS) as usize);
        }
        if idx > 0 {
            lemma_content_focus_selects_in_list(p, n, (idx - 1) as usize);
        }
        if idx + APP_GRID_COLS <= usize::MAX {
            lemma_content_focus_selects_in_list(p, n, (idx + APP_GRID_COLS) as usize);
        }
        if idx + 1 <= usize::MAX {
            lemma_content_focus_selects_in_list(p, n, (idx + 1) as usize);
        }
        lemma_sync_keeps_selection(
            HomeState { category_menu_open: true, category_menu_index: category_index_of(p.launcher_category), ..p },
            n,
        );
    }
}

/// Scrolling to show the selection puts its row inside the window of
/// visible rows, never scrolls past the end, and says whether it scrolled.
pub proof fn lemma_ensure_visible_shows_selection(s: HomeState, n: nat)
    requires
        s.launcher_category != LauncherCategory::Recents,
        selected_row_spec(s) < total_rows_spec(s, n, s.launcher_category),
    ensures
        ({
            let (s2, scrolled) = ensure_visible_spec(s, n);
            let c = s.launcher_category;
            let top = top_row_spec(s2, c);
            &&& top <= selected_row_spec(s2) < top + visible_rows_spec(c)
            &&& top <= sat_sub(total_rows_spec(s2, n, c), visible_rows_spec(c))
            &&& selected_row_spec(s2) == selected_row_spec(s)
            &&& scrolled == (top != top_row_spec(s, c))
        }),
{
}

proof fn lemma_scroll_keeps_selection(s: HomeState, n: nat, top_row: usize)
    requires
        selection_in_list(s, n),
    ensures
        selection_in_list(scroll_to_spec(s, n, top_row), n),
        same_content(scroll_to_spec(s, n, top_row), s),
{
    reveal(scroll_to_spec);
    let category = s.launcher_category;
    let visible = visible_rows_spec(category);
    let total = total_rows_spec(s, n, category);
    let top = min_usize(top_row, sat_sub(total, visible));
    let s1 = with_top_row(s, category, top);
    let index = match category {
        LauncherCategory::Apps => min_usize((top * APP_GRID_COLS) as usize, sat_sub(s.installed_apps@.len() as usize, 1)),
        LauncherCategory::Books => min_usize(top, sat_sub(s.books_cache@.len() as usize, 1)),
        LauncherCategory::Images => min_usize(top, sat_sub(s.images_cache@.len() as usize, 1)),
        LauncherCategory::Recents => s.start_menu_index,
    };
    lemma_sync_keeps_selection(
        HomeState { start_menu_index: index, start_menu_nav_pending: true, start_menu_need_base_refresh: true, ..s1 },
        n,
    );
}

/// Taps keep the launcher's selection on one of the entries of its list
/// (when the list has any).
pub proof fn lemma_touch_keeps_selection_in_list(
    s: HomeState,
    recents: Seq<String>,
    event: PlatformInputEvent,
    width: i32,
    table_hit: Option<(usize, usize)>,
    scrollbar_hit: Option<TableScrollBarHit>,
)
    requires
        selection_in_list(s, recents.len()),
    ensures
        selection_in_list(start_menu_touch_spec(s, recents, event, width, table_hit, scrollbar_hit).0, recents.len()),
{
    let n = recents.len();
    let (point, is_down, is_up) = match event {
        PlatformInputEvent::TouchDown { x, y } => (Point { x, y }, true, false),
        PlatformInputEvent::TouchUp { x, y } => (Point { x, y }, false, true),
        PlatformInputEvent::TouchMove { x, y } => (Point { x, y }, false, false),
    };
    if s.category_menu_open {
        let popup = match s.last_category_popup_rect {
            Some(r) => r,
            None => popup_rect_spec(width),
        };
        if popup.contains_spec(point) && is_down {
            let q = div_trunc(popup.h as int, 4);
            let item_h = if q >= 1 { q } else { 1 };
            let i = div_trunc(point.y - popup.y, item_h);
            let idx = (if i < 0 { 0 } else if i > 3 { 3 } else { i }) as usize;
            let s1 = HomeState {
                launcher_category: category_at(idx),
                category_menu_index: idx,
                category_menu_open: false,
                touch_pressed_index: None,
                ..s
            };
            lemma_content_focus_selects_in_list(s1, n, 0);
        }
        lemma_sync_keeps_selection(
            HomeState { category_menu_open: false, start_menu_need_base_refresh: true, start_menu_nav_pending: true, ..s },
            n,
        );
    } else {
        let s1 = actions_focus_spec(s);
        lemma_sync_keeps_selection(
            HomeState {
                category_menu_index: category_index_of(s.launcher_category),
                category_menu_open: true,
                start_menu_need_base_refresh: true,
                start_menu_nav_pending: true,
                ..s1
            },
            n,
        );
        let item = match table_hit {
            Some((row, col)) => Some(item_index_spec(s.launcher_category, row, col)),
            None => None,
        };
        let picked = item is Some && item->0 < content_len_spec(s, n);
        if picked {
            lemma_content_focus_selects_in_list(s, n, item->0);
        }
        let t1 = if picked { nav(content_focus_spec(s, n, item->0)) } else { s };
        if scrollbar_hit is Some {
            let t2 = HomeState { touch_pressed_index: None, ..t1 };
            let top = top_row_spec(t2, t2.launcher_category);
            lemma_scroll_keeps_selection(t2, n, sat_sub(top, 1));
            lemma_scroll_keeps_selection(t2, n, if top == usize::MAX { top } else { (top + 1) as usize });
            if let Some(TableScrollBarHit::Track { top_row }) = scrollbar_hit {
                lemma_scroll_keeps_selection(t2, n, top_row);
            }
        }
    }
}

proof fn lemma_sync_keeps_menu_index(s: HomeState, n: nat)
    ensures
        s.category_menu_index <= 3 ==> sync_focus_spec(s, n).category_menu_index <= 3,
        s.category_menu_index <= 3 ==> selection_from_focus_spec(s, n).category_menu_index <= 3,
        sync_focus_spec(s, n).install_dialog == s.install_dialog,
{
    reveal(sync_focus_spec);
}

proof fn lemma_content_focus_keeps_menu_index(s: HomeState, n: nat, index: usize)
    ensures
        content_focus_spec(s, n, index).category_menu_index == s.category_menu_index,
        content_focus_spec(s, n, index).install_dialog == s.install_dialog,
{
    reveal(content_focus_spec);
}

/// Buttons keep the category menu's cursor on one of its four entries.
#[verifier::spinoff_prover]
#[verifier::rlimit(40)]
pub proof fn lemma_input_keeps_menu_index(s: HomeState, recents: Seq<String>, b: ButtonState)
    requires
        s.category_menu_index <= 3,
    ensures
        start_menu_input_spec(s, recents, b).0.category_menu_index <= 3,
{
    let n = recents.len();
    let s1 = sync_focus_spec(s, n);
    lemma_sync_keeps_menu_index(s, n);
    let len = content_len_spec(s1, n);
    let s2 = if len > 0 && s1.start_menu_index >= len { HomeState { start_menu_index: (len - 1) as usize, ..s1 } } else { s1 };
    lemma_sync_keeps_menu_index(s2, n);
    let p = input_prelude_spec(s, n);
    assert(p.category_menu_index <= 3);
    let ev = launcher_event_spec(b);
    if p.install_dialog is Some {
        lemma_sync_keeps_menu_index(HomeState { install_dialog: None, start_menu_need_base_refresh: true, ..p }, n);
    } else if p.category_menu_open {
        if is_button(ev, ButtonId::Confirm) {
            let c1 = HomeState { launcher_category: category_at(p.category_menu_index), category_menu_open: false, ..p };
            lemma_content_focus_keeps_menu_index(c1, n, 0);
            let c2 = content_focus_spec(c1, n, 0);
            lemma_sync_keeps_menu_index(HomeState { start_menu_need_base_refresh: true, ..c2 }, n);
        }
    } else {
        let idx = p.start_menu_index;
        lemma_content_focus_keeps_menu_index(p, n, 0);
        lemma_content_focus_keeps_menu_index(p, n, idx);
        if idx >= APP_GRID_COLS {
            lemma_content_focus_keeps_menu_index(p, n, (idx - APP_GRID_COLS) as usize);
        }
        if idx > 0 {
            lemma_content_focus_keeps_menu_index(p, n, (idx - 1) as usize);
        }
        if idx + APP_GRID_COLS <= usize::MAX {
            lemma_content_focus_keeps_menu_index(p, n, (idx + APP_GRID_COLS) as usize);
        }
        if idx + 1 <= usize::MAX {
            lemma_content_focus_keeps_menu_index(p, n, (idx + 1) as usize);
        }
        lemma_sync_keeps_menu_index(
            HomeState { category_menu_open: true, category_menu_index: category_index_of(p.launcher_category), ..p },
            n,
        );
    }
}

/// With the install dialog up, a button press opens nothing, and the
/// dialog goes away exactly when Confirm or Back is pressed with none of
/// Up, Down, Left and Right (which come first).
pub proof fn lemma_install_dialog_dismissal(s: HomeState, recents: Seq<String>, b: ButtonState)
    requires
        s.install_dialog is Some,
    ensures
        start_menu_input_spec(s, recents, b).1 is Nothing,
        start_menu_input_spec(s, recents, b).0.install_dialog is None <==> (
            (b.pressed(Buttons::Confirm) || b.pressed(Buttons::Back)) && !b.pressed(Buttons::Up)
                && !b.pressed(Buttons::Down) && !b.pressed(Buttons::Left) && !b.pressed(Buttons::Right)
        ),
{
    let n = recents.len();
    lemma_prelude_keeps_content(s, n);
    let p = input_prelude_spec(s, n);
    lemma_sync_keeps_menu_index(HomeState { install_dialog: None, start_menu_need_base_refresh: true, ..p }, n);
}

proof fn lemma_content_focus_index(s: HomeState, n: nat, index: usize)
    ensures
        ({
            let t = content_focus_spec(s, n, index);
            &&& t.start_menu_index == min_usize(index, sat_sub(content_len_spec(s, n), 1))
            &&& t.start_menu_section == StartMenuSection::Recents
            &&& t.launcher_category == s.launcher_category
            &&& t.installed_apps == s.installed_apps
        }),
{
    reveal(content_focus_spec);
}

/// In the apps grid, Up moves to the app right above (same column, one row
/// up) and Down to the app right below, when there is one; Down followed by
/// Up comes back to the same app.
pub proof fn lemma_apps_grid_up_down(p: HomeState, recents: Seq<String>)
    requires
        p.launcher_category == LauncherCategory::Apps,
        p.start_menu_section == StartMenuSection::Recents,
        p.start_menu_index < content_len_spec(p, recents.len()),
    ensures
        ({
            let idx = p.start_menu_index;
            let up = Some(UiEvent::ButtonDown { button: ButtonId::Up });
            let down = Some(UiEvent::ButtonDown { button: ButtonId::Down });
            let u = list_input_spec(p, recents, up).0;
            let q = list_input_spec(p, recents, down).0;
            &&& idx >= APP_GRID_COLS ==> {
                &&& u.start_menu_section == StartMenuSection::Recents
                &&& u.start_menu_index % APP_GRID_COLS == idx % APP_GRID_COLS
                &&& u.start_menu_index / APP_GRID_COLS + 1 == idx / APP_GRID_COLS
            }
            &&& idx + APP_GRID_COLS < content_len_spec(p, recents.len()) ==> {
                &&& q.start_menu_index % APP_GRID_COLS == idx % APP_GRID_COLS
                &&& q.start_menu_index / APP_GRID_COLS == idx / APP_GRID_COLS + 1
                &&& list_input_spec(q, recents, up).0.start_menu_index == idx
            }
        }),
{
    let n = recents.len();
    let idx = p.start_menu_index;
    if idx >= APP_GRID_COLS {
        lemma_content_focus_index(p, n, (idx - APP_GRID_COLS) as usize);
    }
    if idx + APP_GRID_COLS < content_len_spec(p, n) {
        lemma_content_focus_index(p, n, (idx + APP_GRID_COLS) as usize);
        let q0 = content_focus_spec(p, n, (idx + APP_GRID_COLS) as usize);
        let q = nav(q0);
        assert(content_len_spec(q, n) == content_len_spec(p, n));
        lemma_content_focus_index(q, n, idx);
    }
}

/// In the apps grid, Left and Right move one app along the row and stop at
/// its ends; in the other lists, Up and Down move one entry.
pub proof fn lemma_launcher_neighbours(p: HomeState, recents: Seq<String>)
    requires
        p.start_menu_section == StartMenuSection::Recents,
        p.start_menu_index < content_len_spec(p, recents.len()),
    ensures
        ({
            let idx = p.start_menu_index;
            let len = content_len_spec(p, recents.len());
            let ev = |b: ButtonId| Some(UiEvent::ButtonDown { button: b });
            let l = list_input_spec(p, recents, ev(ButtonId::Left)).0;
            let r = list_input_spec(p, recents, ev(ButtonId::Right)).0;
            let u = list_input_spec(p, recents, ev(ButtonId::Up)).0;
            let d = list_input_spec(p, recents, ev(ButtonId::Down)).0;
            &&& p.launcher_category == LauncherCategory::Apps ==> {
                &&& idx % APP_GRID_COLS > 0 ==> l.start_menu_index + 1 == idx
                &&& idx % APP_GRID_COLS == 0 ==> l.start_menu_index == idx
                &&& idx % APP_GRID_COLS + 1 < APP_GRID_COLS && idx + 1 < len ==> r.start_menu_index == idx + 1
                &&& idx % APP_GRID_COLS + 1 == APP_GRID_COLS ==> r.start_menu_index == idx
            }
            &&& p.launcher_category != LauncherCategory::Apps ==> {
                &&& idx > 0 ==> u.start_menu_index + 1 == idx
                &&& idx + 1 < len ==> d.start_menu_index == idx + 1
            }
        }),
{
    let n = recents.len();
    let idx = p.start_menu_index;
    if idx > 0 {
        lemma_content_focus_index(p, n, (idx - 1) as usize);
    }
    lemma_content_focus_index(p, n, (idx + 1) as usize);
    lemma_content_focus_index(p, n, idx);
}

} // verus!
