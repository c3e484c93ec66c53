//! The book reader: page turning, the table of contents, the page-number
//! dialog, book statistics and help.
use vstd::prelude::*;
use vstd::string::StringExecFns;
use std::collections::BTreeMap;
use std::rc::Rc;
use crate::image_viewer::{AppSource, ImageEntry, ImageError};
use crate::framebuffer::{Rotation, FB_HEIGHT, FB_WIDTH};
use crate::input::{ButtonState, Buttons};
use crate::palm::menu_preview::{MenuBarPreview, MenuBarSpec, MenuItemPreview, MenuItemSpec, MenuPullDownPreview, MenuSpec};
use crate::trbk::{TrbkBookInfo, TrbkTocEntry};
use crate::ui::{HelpDialogAction, ModalFormAction, ModalFormController, ObjectId, Rect, RuntimeHelpDialog};

verus! {

#[derive(Clone, Copy, Debug)]
pub enum PageTurnIndicator {
    Forward,
    Backward,
}

/// The reader's state: the open book, the page shown, the table-of-contents
/// cursor and the dialog on top, if any.
pub struct BookReaderState {
    pub current_book: Option<Rc<TrbkBookInfo>>,
    pub toc_selected: usize,
    pub toc_top_row: usize,
    pub toc_cancel_focused: bool,
    pub toc_labels: Option<Vec<String>>,
    pub current_page: usize,
    pub book_turns_since_full: usize,
    pub last_rendered_page: Option<usize>,
    pub page_turn_indicator: Option<PageTurnIndicator>,
    pub overlay: Option<ReaderOverlay>,
    pub overlay_form: ModalFormController,
}

pub struct BookViewResult {
    pub exit: bool,
    pub open_toc: bool,
    pub dirty: bool,
}

pub struct TocResult {
    pub exit: bool,
    pub jumped: bool,
    pub dirty: bool,
}

/// Where a tap on the table of contents lands.
#[derive(Clone, Copy, Debug, PartialEq, Eq, Structural)]
pub enum TocTouchHit {
    Row(usize),
    Cancel,
    ScrollUp,
    ScrollDown,
    ScrollTrack(usize),
}

#[derive(Clone, Copy, Debug, PartialEq, Eq, Structural)]
pub enum ReaderMenuCommand {
    Contents,
    Page,
    Stats,
    Help,
}

/// The dialog over the page.
#[derive(Clone, Debug, PartialEq, Eq)]
pub enum ReaderOverlay {
    /// Choosing a page; `target_page` counts from 0.
    PageJump { target_page: usize },
    Stats,
    Help(RuntimeHelpDialog),
}

pub struct ReaderOverlayResult {
    pub close: bool,
    pub dirty: bool,
    pub jumped: bool,
}

pub const READER_MENU_NAVIGATE: u16 = 1;
pub const READER_MENU_VIEW: u16 = 2;
pub const READER_CMD_CONTENTS: u16 = 100;
pub const READER_CMD_PAGE: u16 = 101;
pub const READER_CMD_STATS: u16 = 200;
pub const READER_CMD_HELP: u16 = 201;
pub const READER_OVERLAY_BTN_OK: ObjectId = 3001;
pub const READER_OVERLAY_BTN_CANCEL: ObjectId = 3002;
pub const READER_OVERLAY_DIGIT_UP_BASE: ObjectId = 3100;
pub const READER_OVERLAY_DIGIT_FIELD_BASE: ObjectId = 3200;
pub const READER_OVERLAY_DIGIT_DOWN_BASE: ObjectId = 3300;

/// The reader's help text.
pub open spec fn reader_help_text_spec() -> Seq<char> {
    "Left/Up: previous page\nRight/Down: next page\nConfirm: focus Menu in status bar\nMenu -> Contents/Page/Stats/Help\nHome exits to launcher"@
}

fn reader_help_text() -> (s: String)
    ensures
        s@ == reader_help_text_spec(),
{
    "Left/Up: previous page\nRight/Down: next page\nConfirm: focus Menu in status bar\nMenu -> Contents/Page/Stats/Help\nHome exits to launcher".to_owned()
}

/// Number of decimal digits of `n`.
pub open spec fn num_digits(n: nat) -> nat
    decreases n,
{
    if n < 10 { 1 } else { 1 + num_digits(n / 10) }
}

pub open spec fn max1(n: usize) -> nat {
    if n >= 1 { n as nat } else { 1 }
}

/// `10^p`.
pub open spec fn pow10(p: nat) -> nat
    decreases p,
{
    if p == 0 { 1 } else { 10 * pow10((p - 1) as nat) }
}

pub open spec fn clamp_nat(v: int, lo: int, hi: int) -> int {
    if v < lo { lo } else if v > hi { hi } else { v }
}

/// How many digit columns the page-number dialog shows.
fn page_jump_digit_count(page_count: usize) -> (d: usize)
    ensures
        d == num_digits(max1(page_count)),
        1 <= d <= 20,
{
    let mut n: usize = if page_count > 1 { page_count } else { 1 };
    let mut d: usize = 1;
    assert(pow10(0) == 1);
    assert(n as nat * pow10(0) <= max1(page_count)) by (nonlinear_arith)
        requires pow10(0) == 1, n <= max1(page_count);
    while n >= 10
        invariant
            1 <= d,
            d + num_digits(n as nat) - 1 == num_digits(max1(page_count)),
            n <= max1(page_count),
            d <= 20,
            n as nat * pow10((d - 1) as nat) <= max1(page_count),
        decreases n,
    {
        assert(n / 10 * pow10(d as nat) <= n * pow10((d - 1) as nat)) by (nonlinear_arith)
            requires pow10(d as nat) == 10 * pow10((d - 1) as nat), n >= 10;
        assert(d < 20) by {
            lemma_pow10_big(d);
            let p = pow10((d - 1) as nat);
            assert(10 * p <= n * p) by (nonlinear_arith) requires n >= 10, p >= 1;
        }
        n = n / 10;
        d += 1;
    }
    d
}

proof fn lemma_pow10_big(d: usize)
    requires
        1 <= d,
    ensures
        d >= 20 ==> pow10((d - 1) as nat) * 10 > usize::MAX,
        pow10((d - 1) as nat) >= 1,
{
    assert(pow10(0) == 1);
    lemma_pow10_monotone(0, (d - 1) as nat);
    if d >= 20 {
        assert(pow10(19) == 10_000_000_000_000_000_000) by {
            reveal_with_fuel(pow10, 20);
        }
        lemma_pow10_monotone(19, (d - 1) as nat);
    }
}

/// The page that the dialog shows, counted from 1 and kept in `1..=page_count`.
pub open spec fn display_value_spec(target_page: usize, page_count: usize) -> nat {
    let v = if target_page as int + 1 > usize::MAX { usize::MAX as int } else { target_page as int + 1 };
    clamp_nat(v, 1, max1(page_count) as int) as nat
}

fn page_jump_display_value(target_page: usize, page_count: usize) -> (v: usize)
    ensures
        v == display_value_spec(target_page, page_count),
{
    let v = target_page.saturating_add(1);
    let max_value = if page_count > 1 { page_count } else { 1 };
    if v < 1 {
        1
    } else if v > max_value {
        max_value
    } else {
        v
    }
}

/// The weight of digit column `index`, `10^(digits - index - 1)`, saturated.
pub open spec fn place_value_spec(digits: usize, index: usize) -> nat {
    let e = if digits > index + 1 { digits - (index + 1) } else { 0int };
    let p = pow10((e as u32) as nat);
    if p > usize::MAX { usize::MAX as nat } else { p }
}

proof fn lemma_pow10_monotone(a: nat, b: nat)
    requires
        a <= b,
    ensures
        pow10(a) <= pow10(b),
    decreases b,
{
    if a < b {
        lemma_pow10_monotone(a, (b - 1) as nat);
    }
}

fn page_jump_place_value(digits: usize, index: usize) -> (v: usize)
    requires
        index < usize::MAX,
    ensures
        v == place_value_spec(digits, index),
{
    let power = digits.saturating_sub(index + 1) as u32;
    let mut v: usize = 1;
    let mut i: u32 = 0;
    while i < power && v < usize::MAX
        invariant
            i <= power,
            v == (if pow10(i as nat) > usize::MAX { usize::MAX as nat } else { pow10(i as nat) }),
        decreases power - i,
    {
        v = if v > usize::MAX / 10 { usize::MAX } else { v * 10 };
        i += 1;
    }
    proof {
        if v == usize::MAX {
            lemma_pow10_monotone(i as nat, power as nat);
        }
    }
    v
}

/// The shown page after pressing a digit's up (`delta < 0`) or down button:
/// one place value less or more, kept in `1..=page_count`.
pub open spec fn adjust_digit_spec(display_value: usize, page_count: usize, digits: usize, index: usize, delta: i32) -> nat {
    let place = place_value_spec(digits, index);
    let max_value = max1(page_count) as int;
    let moved = if delta < 0 {
        if display_value >= place { display_value - place } else { 0int }
    } else {
        if display_value + place > usize::MAX { usize::MAX as int } else { display_value + place }
    };
    clamp_nat(moved, 1, max_value) as nat
}

fn page_jump_adjust_digit(display_value: usize, page_count: usize, digits: usize, index: usize, delta: i32) -> (v: usize)
    requires
        index < usize::MAX,
    ensures
        v == adjust_digit_spec(display_value, page_count, digits, index, delta),
        1 <= v <= max1(page_count),
{
    let place = page_jump_place_value(digits, index);
    let max_value = if page_count > 1 { page_count } else { 1 };
    let moved = if delta < 0 {
        display_value.saturating_sub(place)
    } else {
        display_value.saturating_add(place)
    };
    if moved < 1 {
        1
    } else if moved > max_value {
        max_value
    } else {
        moved
    }
}

/// The table-of-contents entry for `page`: the last entry of the leading run
/// of entries that start on or before it (the first entry when none does).
pub open spec fn toc_selection_from(toc: Seq<TrbkTocEntry>, page: usize, i: int, selected: int) -> int
    decreases toc.len() - i,
{
    if i < 0 || i >= toc.len() {
        selected
    } else if toc[i].page_index as int <= page as int {
        toc_selection_from(toc, page, i + 1, i)
    } else {
        selected
    }
}

pub open spec fn toc_selection_spec(toc: Seq<TrbkTocEntry>, page: usize) -> int {
    toc_selection_from(toc, page, 0, 0)
}

proof fn lemma_toc_selection_bound(toc: Seq<TrbkTocEntry>, page: usize, i: int, selected: int)
    requires
        0 <= i,
        0 <= selected,
        selected < toc.len() || toc.len() == 0,
        selected <= i,
    ensures
        0 <= toc_selection_from(toc, page, i, selected),
        toc_selection_from(toc, page, i, selected) < toc.len() || toc.len() == 0,
    decreases toc.len() - i,
{
    if i < toc.len() && toc[i].page_index as int <= page as int {
        lemma_toc_selection_bound(toc, page, i + 1, i);
    }
}

/// The table-of-contents entry that a page belongs to.
pub fn find_toc_selection(book: &TrbkBookInfo, page: usize) -> (sel: usize)
    ensures
        sel == toc_selection_spec(book.toc@, page),
        sel < book.toc@.len() || book.toc@.len() == 0,
{
    proof { lemma_toc_selection_bound(book.toc@, page, 0, 0); }
    let mut selected: usize = 0;
    let mut idx: usize = 0;
    while idx < book.toc.len() && (book.toc[idx].page_index as usize) <= page
        invariant
            idx <= book.toc@.len(),
            selected <= idx,
            toc_selection_from(book.toc@, page, idx as int, selected as int) == toc_selection_spec(book.toc@, page),
        decreases book.toc@.len() - idx,
    {
        selected = idx;
        idx += 1;
    }
    selected
}

/// The reader's menu bar: Navigate > Contents, Page and View > Stats, Help.
pub open spec fn reader_menu_bar_spec() -> MenuBarSpec {
    MenuBarSpec {
        resource_id: 1,
        menus: seq![
            MenuSpec {
                resource_id: READER_MENU_NAVIGATE,
                title: "Navigate"@,
                items: seq![
                    MenuItemSpec { id: READER_CMD_CONTENTS, text: "Contents"@, shortcut: None },
                    MenuItemSpec { id: READER_CMD_PAGE, text: "Page"@, shortcut: None },
                ],
            },
            MenuSpec {
                resource_id: READER_MENU_VIEW,
                title: "View"@,
                items: seq![
                    MenuItemSpec { id: READER_CMD_STATS, text: "Stats"@, shortcut: None },
                    MenuItemSpec { id: READER_CMD_HELP, text: "Help"@, shortcut: None },
                ],
            },
        ],
    }
}

pub fn reader_menu_bar() -> (m: MenuBarPreview)
    ensures
        m@ == reader_menu_bar_spec(),
{
    let mut nav: Vec<MenuItemPreview> = Vec::new();
    nav.push(MenuItemPreview { id: READER_CMD_CONTENTS, text: "Contents".to_owned(), shortcut: None });
    nav.push(MenuItemPreview { id: READER_CMD_PAGE, text: "Page".to_owned(), shortcut: None });
    let mut view: Vec<MenuItemPreview> = Vec::new();
    view.push(MenuItemPreview { id: READER_CMD_STATS, text: "Stats".to_owned(), shortcut: None });
    view.push(MenuItemPreview { id: READER_CMD_HELP, text: "Help".to_owned(), shortcut: None });
    let mut menus: Vec<MenuPullDownPreview> = Vec::new();
    menus.push(MenuPullDownPreview { resource_id: READER_MENU_NAVIGATE, title: "Navigate".to_owned(), items: nav });
    menus.push(MenuPullDownPreview { resource_id: READER_MENU_VIEW, title: "View".to_owned(), items: view });
    let m = MenuBarPreview { resource_id: 1, menus };
    assert(m@.menus[0].items =~= reader_menu_bar_spec().menus[0].items);
    assert(m@.menus[1].items =~= reader_menu_bar_spec().menus[1].items);
    assert(m@.menus =~= reader_menu_bar_spec().menus);
    m
}

pub open spec fn reader_menu_command_spec(item_id: u16) -> Option<ReaderMenuCommand> {
    if item_id == READER_CMD_CONTENTS {
        Some(ReaderMenuCommand::Contents)
    } else if item_id == READER_CMD_PAGE {
        Some(ReaderMenuCommand::Page)
    } else if item_id == READER_CMD_STATS {
        Some(ReaderMenuCommand::Stats)
    } else if item_id == READER_CMD_HELP {
        Some(ReaderMenuCommand::Help)
    } else {
        None
    }
}

/// The command of a reader menu item.
pub fn reader_menu_command(item_id: u16) -> (c: Option<ReaderMenuCommand>)
    ensures
        c == reader_menu_command_spec(item_id),
{
    match item_id {
        READER_CMD_CONTENTS => Some(ReaderMenuCommand::Contents),
        READER_CMD_PAGE => Some(ReaderMenuCommand::Page),
        READER_CMD_STATS => Some(ReaderMenuCommand::Stats),
        READER_CMD_HELP => Some(ReaderMenuCommand::Help),
        _ => None,
    }
}

/// Every item of the reader's menu bar maps to a command.
pub proof fn lemma_reader_menu_items_have_commands(m: int, i: int)
    requires
        0 <= m < reader_menu_bar_spec().menus.len(),
        0 <= i < reader_menu_bar_spec().menus[m].items.len(),
    ensures
        reader_menu_command_spec(reader_menu_bar_spec().menus[m].items[i].id) is Some,
{
}


pub open spec fn sat_sub(a: usize, b: usize) -> usize {
    if a >= b { (a - b) as usize } else { 0 }
}

pub open spec fn sat_add(a: usize, b: usize) -> usize {
    if a + b > usize::MAX { usize::MAX } else { (a + b) as usize }
}

pub open spec fn min_usize(a: usize, b: usize) -> usize {
    if a <= b { a } else { b }
}

pub open spec fn view_result(exit: bool, dirty: bool) -> BookViewResult {
    BookViewResult { exit, open_toc: false, dirty }
}

pub open spec fn overlay_result(close: bool, dirty: bool, jumped: bool) -> ReaderOverlayResult {
    ReaderOverlayResult { close, dirty, jumped }
}

pub open spec fn toc_result(exit: bool, jumped: bool, dirty: bool) -> TocResult {
    TocResult { exit, jumped, dirty }
}

/// The reader showing `page`, to be drawn afresh.
pub open spec fn jump_to(s: BookReaderState, page: usize) -> BookReaderState {
    BookReaderState { current_page: page, last_rendered_page: None, book_turns_since_full: 0, ..s }
}

/// The reader with its dialog closed.
pub open spec fn without_overlay(s: BookReaderState) -> BookReaderState {
    BookReaderState { overlay: None, overlay_form: ModalFormController { focus: None }, ..s }
}

/// Left or Up turns back a page, Right or Down forward (within the book),
/// Back leaves the book; each turn counts toward the next full refresh.
pub open spec fn view_input_spec(s: BookReaderState, b: ButtonState) -> (BookReaderState, BookViewResult) {
    if b.pressed(Buttons::Left) || b.pressed(Buttons::Up) {
        if s.current_page > 0 {
            (
                BookReaderState {
                    current_page: (s.current_page - 1) as usize,
                    book_turns_since_full: sat_add(s.book_turns_since_full, 1),
                    page_turn_indicator: Some(PageTurnIndicator::Backward),
                    ..s
                },
                view_result(false, true),
            )
        } else {
            (s, view_result(false, false))
        }
    } else if b.pressed(Buttons::Right) || b.pressed(Buttons::Down) {
        match s.current_book {
            Some(book) => if s.current_page + 1 < book.page_count {
                (
                    BookReaderState {
                        current_page: (s.current_page + 1) as usize,
                        book_turns_since_full: sat_add(s.book_turns_since_full, 1),
                        page_turn_indicator: Some(PageTurnIndicator::Forward),
                        ..s
                    },
                    view_result(false, true),
                )
            } else {
                (s, view_result(false, false))
            },
            None => (s, view_result(false, false)),
        }
    } else if b.pressed(Buttons::Confirm) {
        (s, view_result(false, false))
    } else if b.pressed(Buttons::Back) {
        (s, view_result(true, true))
    } else {
        (s, view_result(false, false))
    }
}

/// Whether turning a page forward could overflow the page number.
pub open spec fn view_input_overflows(s: BookReaderState, b: ButtonState) -> bool {
    &&& !(b.pressed(Buttons::Left) || b.pressed(Buttons::Up))
    &&& (b.pressed(Buttons::Right) || b.pressed(Buttons::Down))
    &&& s.current_book is Some
    &&& s.current_page == usize::MAX
}

/// The number of pages that the page-number dialog works with.
pub open spec fn jump_page_count(s: BookReaderState) -> usize {
    match s.current_book {
        Some(book) => book.page_count,
        None => 1,
    }
}

/// A digit button of the page-number dialog: the up buttons (`base` =
/// [`READER_OVERLAY_DIGIT_UP_BASE`], `delta` = -1) lower the page by the
/// digit's place value, the down buttons raise it; the page stays in range.
pub open spec fn digit_press_spec(s: BookReaderState, target: usize, id: ObjectId, base: ObjectId, delta: i32) -> (BookReaderState, ReaderOverlayResult) {
    let page_count = jump_page_count(s);
    let digits = num_digits(max1(page_count));
    let index = id - base;
    if index < digits {
        let display = display_value_spec(target, page_count);
        let next = adjust_digit_spec(display as usize, page_count, digits as usize, index as usize, delta);
        (
            BookReaderState { overlay: Some(ReaderOverlay::PageJump { target_page: (next - 1) as usize }), ..s },
            overlay_result(false, true, false),
        )
    } else {
        (s, overlay_result(false, false, false))
    }
}

/// What an action of the page-number or statistics dialog does.
pub open spec fn overlay_action_spec(s: BookReaderState, action: ModalFormAction) -> (BookReaderState, ReaderOverlayResult) {
    let nothing = overlay_result(false, false, false);
    if s.overlay is None {
        (s, nothing)
    } else {
        match action {
            ModalFormAction::Nothing => (s, nothing),
            ModalFormAction::Redraw => (s, overlay_result(false, true, false)),
            ModalFormAction::Closed => (without_overlay(s), overlay_result(true, true, false)),
            ModalFormAction::Activate(id) => match s.overlay {
                Some(ReaderOverlay::PageJump { target_page }) => if id == READER_OVERLAY_BTN_OK {
                    (without_overlay(jump_to(s, target_page)), overlay_result(true, true, true))
                } else if id == READER_OVERLAY_BTN_CANCEL {
                    (without_overlay(s), overlay_result(true, true, false))
                } else if READER_OVERLAY_DIGIT_UP_BASE <= id < READER_OVERLAY_DIGIT_UP_BASE + 16 {
                    digit_press_spec(s, target_page, id, READER_OVERLAY_DIGIT_UP_BASE, -1i32)
                } else if READER_OVERLAY_DIGIT_DOWN_BASE <= id < READER_OVERLAY_DIGIT_DOWN_BASE + 16 {
                    digit_press_spec(s, target_page, id, READER_OVERLAY_DIGIT_DOWN_BASE, 1i32)
                } else {
                    (s, nothing)
                },
                Some(ReaderOverlay::Stats) => if id == READER_OVERLAY_BTN_OK || id == READER_OVERLAY_BTN_CANCEL {
                    (without_overlay(s), overlay_result(true, true, false))
                } else {
                    (s, nothing)
                },
                _ => (s, nothing),
            },
        }
    }
}

/// The help dialog scrolled by `delta` lines, stopping at the ends of `usize`.
pub open spec fn scrolled(line: usize, delta: i32) -> usize {
    if delta < 0 {
        sat_sub(line, (-(delta as int)) as usize)
    } else if delta > 0 {
        sat_add(line, delta as usize)
    } else {
        line
    }
}

/// What an action of the help dialog does.
pub open spec fn help_action_spec(s: BookReaderState, action: HelpDialogAction) -> (BookReaderState, ReaderOverlayResult) {
    let nothing = overlay_result(false, false, false);
    match s.overlay {
        Some(ReaderOverlay::Help(dialog)) => match action {
            HelpDialogAction::Nothing => (s, nothing),
            HelpDialogAction::Redraw => (s, overlay_result(false, true, false)),
            HelpDialogAction::Scroll(delta) => (
                BookReaderState {
                    overlay: Some(ReaderOverlay::Help(RuntimeHelpDialog { scroll_line: scrolled(dialog.scroll_line, delta), ..dialog })),
                    ..s
                },
                overlay_result(false, true, false),
            ),
            HelpDialogAction::Dismiss => (BookReaderState { overlay: None, ..s }, overlay_result(true, true, false)),
        },
        _ => (s, nothing),
    }
}

impl BookReaderState {
    /// A reader with no book.
    pub open spec fn is_empty_reader(self) -> bool {
        &&& self.current_book is None
        &&& self.toc_selected == 0
        &&& self.toc_top_row == 0
        &&& !self.toc_cancel_focused
        &&& self.toc_labels is None
        &&& self.current_page == 0
        &&& self.book_turns_since_full == 0
        &&& self.last_rendered_page is None
        &&& self.page_turn_indicator is None
        &&& self.overlay is None
        &&& self.overlay_form.focus is None
    }

    pub fn new() -> (s: Self)
        ensures
            s.is_empty_reader(),
    {
        BookReaderState {
            current_book: None,
            toc_selected: 0,
            toc_top_row: 0,
            toc_cancel_focused: false,
            toc_labels: None,
            current_page: 0,
            book_turns_since_full: 0,
            last_rendered_page: None,
            page_turn_indicator: None,
            overlay: None,
            overlay_form: ModalFormController::new(),
        }
    }

    /// Forgets the book and every piece of reading state.
    pub fn clear(&mut self)
        ensures
            final(self).is_empty_reader(),
    {
        self.current_book = None;
        self.toc_selected = 0;
        self.toc_top_row = 0;
        self.toc_cancel_focused = false;
        self.toc_labels = None;
        self.current_page = 0;
        self.book_turns_since_full = 0;
        self.last_rendered_page = None;
        self.page_turn_indicator = None;
        self.overlay = None;
        self.overlay_form.reset();
    }

    /// Closes the book, here and in the source.
    pub fn close<S: AppSource>(&mut self, source: &mut S)
        ensures
            final(self).is_empty_reader(),
    {
        self.clear();
        source.close_trbk();
    }

    /// Opens a book from the source at its saved position (or the first
    /// page); on failure the reader is left as it was. Whether the source
    /// opens the book is the source's to say; see [`Self::open_book`].
    pub fn open<S: AppSource>(
        &mut self,
        source: &mut S,
        path: &[String],
        entry: &ImageEntry,
        entry_name: &str,
        book_positions: &BTreeMap<String, usize>,
    ) -> (r: Result<(), ImageError>)
        ensures
            r is Err ==> *final(self) == *old(self),
            r is Ok ==> {
                &&& final(self).current_book is Some
                &&& *final(self) == (BookReaderState {
                    current_book: final(self).current_book,
                    current_page: final(self).current_page,
                    toc_labels: None,
                    last_rendered_page: None,
                    book_turns_since_full: 0,
                    ..*old(self)
                })
                &&& vstd::laws_cmp::obeys_cmp::<String>() ==> {
                    ||| vstd::std_specs::btree::maps_borrowed_key_to_value(book_positions@, entry_name, final(self).current_page)
                    ||| !vstd::std_specs::btree::contains_borrowed_key(book_positions@, entry_name)
                        && final(self).current_page == 0
                }
            },
    {
        let opened = source.open_trbk(path, entry);
        self.open_book(opened, entry_name, book_positions)
    }

    /// Takes in the outcome of opening a book: the book, shown from its saved
    /// position (or the first page), or the source's error with the reader
    /// left as it was.
    pub fn open_book(
        &mut self,
        opened: Result<Rc<TrbkBookInfo>, ImageError>,
        entry_name: &str,
        book_positions: &BTreeMap<String, usize>,
    ) -> (r: Result<(), ImageError>)
        ensures
            opened is Err ==> r == Err::<(), ImageError>(opened->Err_0) && *final(self) == *old(self),
            opened is Ok ==> {
                &&& r is Ok
                &&& *final(self) == (BookReaderState {
                    current_book: Some(opened->Ok_0),
                    current_page: final(self).current_page,
                    toc_labels: None,
                    last_rendered_page: None,
                    book_turns_since_full: 0,
                    ..*old(self)
                })
                &&& vstd::laws_cmp::obeys_cmp::<String>() ==> {
                    ||| vstd::std_specs::btree::maps_borrowed_key_to_value(book_positions@, entry_name, final(self).current_page)
                    ||| !vstd::std_specs::btree::contains_borrowed_key(book_positions@, entry_name)
                        && final(self).current_page == 0
                }
            },
    {
        let saved = match book_positions.get(entry_name) {
            Some(p) => Some(*p),
            None => None,
        };
        self.open_book_at(opened, saved)
    }

    /// Takes in the outcome of opening a book and the position saved for it:
    /// the book, shown from `saved` (or the first page when there is none),
    /// or the source's error with the reader left as it was.
    pub fn open_book_at(&mut self, opened: Result<Rc<TrbkBookInfo>, ImageError>, saved: Option<usize>) -> (r: Result<(), ImageError>)
        ensures
            opened is Err ==> r == Err::<(), ImageError>(opened->Err_0) && *final(self) == *old(self),
            opened is Ok ==> r is Ok && *final(self) == (BookReaderState {
                current_book: Some(opened->Ok_0),
                current_page: match saved {
                    Some(p) => p,
                    None => 0,
                },
                toc_labels: None,
                last_rendered_page: None,
                book_turns_since_full: 0,
                ..*old(self)
            }),
    {
        let info = match opened {
            Ok(info) => info,
            Err(e) => {
                return Err(e);
            },
        };
        self.current_book = Some(info);
        self.toc_labels = None;
        self.current_page = match saved {
            Some(p) => p,
            None => 0,
        };
        self.last_rendered_page = None;
        self.book_turns_since_full = 0;
        Ok(())
    }

    pub fn has_book(&self) -> (r: bool)
        ensures
            r == self.current_book is Some,
    {
        self.current_book.is_some()
    }

    /// The page-turn mark to show, which is then cleared.
    pub fn take_page_turn_indicator(&mut self) -> (r: Option<PageTurnIndicator>)
        ensures
            r == old(self).page_turn_indicator,
            *final(self) == (BookReaderState { page_turn_indicator: None, ..*old(self) }),
    {
        self.page_turn_indicator.take()
    }

    /// Turns pages with the buttons; see [`view_input_spec`].
    pub fn handle_view_input<S: AppSource>(&mut self, source: &mut S, buttons: &ButtonState) -> (r: BookViewResult)
        requires
            !view_input_overflows(*old(self), *buttons),
        ensures
            (*final(self), r) == view_input_spec(*old(self), *buttons),
    {
        let mut result = BookViewResult { exit: false, open_toc: false, dirty: false };

        if buttons.is_pressed(Buttons::Left) || buttons.is_pressed(Buttons::Up) {
            if self.current_page > 0 {
                self.current_page = self.current_page - 1;
                self.book_turns_since_full = self.book_turns_since_full.saturating_add(1);
                self.page_turn_indicator = Some(PageTurnIndicator::Backward);
                result.dirty = true;
            }
            return result;
        }

        if buttons.is_pressed(Buttons::Right) || buttons.is_pressed(Buttons::Down) {
            let can_advance = match &self.current_book {
                Some(book) => self.current_page + 1 < book.page_count,
                None => false,
            };
            if can_advance {
                self.current_page += 1;
                self.book_turns_since_full = self.book_turns_since_full.saturating_add(1);
                self.page_turn_indicator = Some(PageTurnIndicator::Forward);
                result.dirty = true;
            }
            return result;
        }

        if buttons.is_pressed(Buttons::Confirm) {
            return result;
        }

        if buttons.is_pressed(Buttons::Back) {
            result.exit = true;
            result.dirty = true;
            return result;
        }
        result
    }

    /// Applies an action of the page-number or statistics dialog; see
    /// [`overlay_action_spec`].
    pub fn apply_overlay_action(&mut self, action: ModalFormAction) -> (r: ReaderOverlayResult)
        ensures
            (*final(self), r) == overlay_action_spec(*old(self), action),
    {
        let mut result = ReaderOverlayResult { close: false, dirty: false, jumped: false };
        if self.overlay.is_none() {
            return result;
        }
        match action {
            ModalFormAction::Nothing => {},
            ModalFormAction::Redraw => {
                result.dirty = true;
            },
            ModalFormAction::Closed => {
                self.overlay = None;
                self.overlay_form.reset();
                result.close = true;
                result.dirty = true;
            },
            ModalFormAction::Activate(id) => {
                let page_count = match &self.current_book {
                    Some(book) => book.page_count,
                    None => 1,
                };
                let target = match &self.overlay {
                    Some(ReaderOverlay::PageJump { target_page }) => Some(*target_page),
                    _ => None,
                };
                let is_stats = match &self.overlay {
                    Some(ReaderOverlay::Stats) => true,
                    _ => false,
                };
                if let Some(target_page) = target {
                    if id == READER_OVERLAY_BTN_OK {
                        self.current_page = target_page;
                        self.last_rendered_page = None;
                        self.book_turns_since_full = 0;
                        self.overlay = None;
                        self.overlay_form.reset();
                        result.close = true;
                        result.jumped = true;
                        result.dirty = true;
                    } else if id == READER_OVERLAY_BTN_CANCEL {
                        self.overlay = None;
                        self.overlay_form.reset();
                        result.close = true;
                        result.dirty = true;
                    } else if id >= READER_OVERLAY_DIGIT_UP_BASE && id < READER_OVERLAY_DIGIT_UP_BASE + 16 {
                        let digits = page_jump_digit_count(page_count);
                        let index = (id - READER_OVERLAY_DIGIT_UP_BASE) as usize;
                        if index < digits {
                            let display_value = page_jump_display_value(target_page, page_count);
                            let next_value = page_jump_adjust_digit(display_value, page_count, digits, index, -1);
                            self.overlay = Some(ReaderOverlay::PageJump { target_page: next_value - 1 });
                            result.dirty = true;
                        }
                    } else if id >= READER_OVERLAY_DIGIT_DOWN_BASE && id < READER_OVERLAY_DIGIT_DOWN_BASE + 16 {
                        let digits = page_jump_digit_count(page_count);
                        let index = (id - READER_OVERLAY_DIGIT_DOWN_BASE) as usize;
                        if index < digits {
                            let display_value = page_jump_display_value(target_page, page_count);
                            let next_value = page_jump_adjust_digit(display_value, page_count, digits, index, 1);
                            self.overlay = Some(ReaderOverlay::PageJump { target_page: next_value - 1 });
                            result.dirty = true;
                        }
                    }
                } else if is_stats {
                    if id == READER_OVERLAY_BTN_OK || id == READER_OVERLAY_BTN_CANCEL {
                        self.overlay = None;
                        self.overlay_form.reset();
                        result.close = true;
                        result.dirty = true;
                    }
                }
            },
        }
        result
    }

    /// A frame's buttons on the page-number or statistics dialog: the first
    /// pressed button (see [`crate::app::reader_shell::nav_event_spec`]) goes
    /// to the dialog's form, and `form_action`, what the form reports for it,
    /// is applied (see [`overlay_action_spec`]). With no such dialog or no
    /// button, nothing happens.
    pub fn handle_overlay_input(&mut self, buttons: &ButtonState, form_action: ModalFormAction) -> (r: ReaderOverlayResult)
        ensures
            ({
                let shown = match old(self).overlay {
                    Some(ReaderOverlay::PageJump { .. }) => true,
                    Some(ReaderOverlay::Stats) => true,
                    _ => false,
                };
                if shown && crate::app::reader_shell::nav_event_spec(*buttons) is Some {
                    (*final(self), r) == overlay_action_spec(*old(self), form_action)
                } else {
                    *final(self) == *old(self) && r == overlay_result(false, false, false)
                }
            }),
    {
        let shown = match &self.overlay {
            Some(ReaderOverlay::PageJump { .. }) => true,
            Some(ReaderOverlay::Stats) => true,
            _ => false,
        };
        if !shown || crate::app::reader_shell::nav_event_from_buttons(buttons).is_none() {
            return ReaderOverlayResult { close: false, dirty: false, jumped: false };
        }
        self.apply_overlay_action(form_action)
    }

    /// Applies an action of the help dialog; see [`help_action_spec`].
    pub fn apply_help_action(&mut self, action: HelpDialogAction) -> (r: ReaderOverlayResult)
        ensures
            (*final(self), r) == help_action_spec(*old(self), action),
    {
        let mut result = ReaderOverlayResult { close: false, dirty: false, jumped: false };
        let overlay = self.overlay.take();
        let mut dialog = match overlay {
            Some(ReaderOverlay::Help(dialog)) => dialog,
            other => {
                self.overlay = other;
                return result;
            },
        };
        match action {
            HelpDialogAction::Nothing => {},
            HelpDialogAction::Redraw => {
                result.dirty = true;
            },
            HelpDialogAction::Scroll(delta) => {
                if delta < 0 {
                    let up = (0i64 - delta as i64) as usize;
                    dialog.scroll_line = dialog.scroll_line.saturating_sub(up);
                } else if delta > 0 {
                    dialog.scroll_line = dialog.scroll_line.saturating_add(delta as usize);
                }
                result.dirty = true;
            },
            HelpDialogAction::Dismiss => {
                result.close = true;
                result.dirty = true;
                return result;
            },
        }
        self.overlay = Some(ReaderOverlay::Help(dialog));
        result
    }

    pub fn has_overlay(&self) -> (r: bool)
        ensures
            r == self.overlay is Some,
    {
        self.overlay.is_some()
    }

    /// The help dialog on screen, if that is the dialog shown.
    pub fn help_dialog(&self) -> (r: Option<RuntimeHelpDialog>)
        ensures
            r == match self.overlay {
                Some(ReaderOverlay::Help(d)) => Some(d),
                _ => None,
            },
    {
        match &self.overlay {
            Some(ReaderOverlay::Help(dialog)) => Some(
                RuntimeHelpDialog { help_id: dialog.help_id, text: dialog.text.clone(), scroll_line: dialog.scroll_line },
            ),
            _ => None,
        }
    }
}


/// The label of a table-of-contents entry: two spaces per level (at most
/// six levels), then the title.
pub open spec fn toc_label_spec(e: TrbkTocEntry) -> Seq<char> {
    let indent: int = if e.level > 6 { 6 } else { e.level as int };
    Seq::new((2 * indent) as nat, |_i: int| ' ') + e.title@
}

/// The labels after they are made sure of: kept when there were some,
/// otherwise one per entry of `toc`.
pub open spec fn labels_ensured(before: Option<Vec<String>>, after: Option<Vec<String>>, toc: Seq<TrbkTocEntry>) -> bool {
    match before {
        Some(_) => after == before,
        None => match after {
            Some(l) => l@.len() == toc.len() && forall|i: int| 0 <= i < toc.len() ==> (#[trigger] l@[i])@ == toc_label_spec(toc[i]),
            None => false,
        },
    }
}

fn toc_label(entry: &TrbkTocEntry) -> (s: String)
    ensures
        s@ == toc_label_spec(*entry),
{
    let mut label = String::new();
    let indent: u8 = if entry.level > 6 { 6 } else { entry.level };
    let mut i: u8 = 0;
    while i < indent
        invariant
            i <= indent,
            label@ == Seq::new((2 * i) as nat, |_j: int| ' '),
        decreases indent - i,
    {
        proof { reveal_strlit("  "); }
        let ghost before = label@;
        label.append("  ");
        assert(label@ =~= Seq::new((2 * (i + 1)) as nat, |_j: int| ' '));
        i += 1;
    }
    label.append(entry.title.as_str());
    label
}

fn toc_labels_of(book: &TrbkBookInfo) -> (labels: Vec<String>)
    ensures
        labels@.len() == book.toc@.len(),
        forall|i: int| 0 <= i < book.toc@.len() ==> (#[trigger] labels@[i])@ == toc_label_spec(book.toc@[i]),
{
    let mut labels: Vec<String> = Vec::new();
    let mut i: usize = 0;
    while i < book.toc.len()
        invariant
            i <= book.toc@.len(),
            labels@.len() == i,
            forall|j: int| 0 <= j < i ==> (#[trigger] labels@[j])@ == toc_label_spec(book.toc@[j]),
        decreases book.toc@.len() - i,
    {
        labels.push(toc_label(&book.toc[i]));
        i += 1;
    }
    labels
}

/// The selection moved into the window of `visible` rows that starts at the
/// top row, after the top row is kept from scrolling past the end; with no
/// rows, everything goes back to the start.
pub open spec fn clamp_toc_spec(s: BookReaderState, total: usize, visible: usize) -> BookReaderState {
    if total == 0 || visible == 0 {
        BookReaderState { toc_selected: 0, toc_top_row: 0, toc_cancel_focused: false, ..s }
    } else {
        let top = min_usize(s.toc_top_row, sat_sub(total, visible));
        let bottom = min_usize(sat_add(top, sat_sub(visible, 1)), sat_sub(total, 1));
        let sel = if s.toc_selected < top { top } else if s.toc_selected > bottom { bottom } else { s.toc_selected };
        BookReaderState { toc_top_row: top, toc_selected: sel, ..s }
    }
}

/// Buttons on the table of contents: Up and Down move the selection (and
/// scroll to keep it in the window of `visible` rows; Down past the last
/// entry focuses Cancel), Left and Right switch between the list and
/// Cancel, Confirm jumps to the selected entry's page (or leaves on
/// Cancel), Back leaves.
pub open spec fn toc_input_spec(s: BookReaderState, toc: Seq<TrbkTocEntry>, visible: usize, b: ButtonState) -> (BookReaderState, TocResult) {
    let nothing = toc_result(false, false, false);
    let dirty = toc_result(false, false, true);
    let exit = toc_result(true, false, true);
    if b.pressed(Buttons::Up) {
        if s.toc_cancel_focused {
            (BookReaderState { toc_cancel_focused: false, ..s }, dirty)
        } else if s.toc_selected > 0 {
            let sel = (s.toc_selected - 1) as usize;
            let top = if sel < s.toc_top_row { sel } else { s.toc_top_row };
            (BookReaderState { toc_selected: sel, toc_top_row: top, ..s }, dirty)
        } else {
            (s, nothing)
        }
    } else if b.pressed(Buttons::Down) {
        if s.toc_cancel_focused {
            (s, nothing)
        } else if s.toc_selected + 1 < toc.len() {
            let sel = (s.toc_selected + 1) as usize;
            let bottom = sat_add(s.toc_top_row, sat_sub(visible, 1));
            let top = if sel > bottom { sat_sub(sel, sat_sub(visible, 1)) } else { s.toc_top_row };
            (BookReaderState { toc_selected: sel, toc_top_row: top, ..s }, dirty)
        } else {
            (BookReaderState { toc_cancel_focused: true, ..s }, dirty)
        }
    } else if b.pressed(Buttons::Left) || b.pressed(Buttons::Right) {
        (BookReaderState { toc_cancel_focused: !s.toc_cancel_focused, ..s }, dirty)
    } else if b.pressed(Buttons::Confirm) {
        if s.toc_cancel_focused {
            (s, exit)
        } else if s.toc_selected < toc.len() {
            (jump_to(s, toc[s.toc_selected as int].page_index as usize), toc_result(false, true, true))
        } else {
            (s, nothing)
        }
    } else if b.pressed(Buttons::Back) {
        (s, exit)
    } else {
        (s, nothing)
    }
}

/// A tap going down on the table of contents: a row selects it, Cancel
/// focuses Cancel, the scroll bar scrolls (keeping the selection in view).
pub open spec fn toc_press_spec(s: BookReaderState, len: usize, visible: usize, hit: TocTouchHit) -> (BookReaderState, TocResult) {
    let max_top = sat_sub(len, visible);
    match hit {
        TocTouchHit::Row(row) => {
            let row = min_usize(row, sat_sub(len, 1));
            let changed = s.toc_selected != row || s.toc_cancel_focused;
            (BookReaderState { toc_selected: row, toc_cancel_focused: false, ..s }, toc_result(false, false, changed))
        },
        TocTouchHit::Cancel => (BookReaderState { toc_cancel_focused: true, ..s }, toc_result(false, false, !s.toc_cancel_focused)),
        TocTouchHit::ScrollUp => if s.toc_top_row > 0 {
            (
                clamp_toc_spec(BookReaderState { toc_top_row: (s.toc_top_row - 1) as usize, ..s }, len, visible),
                toc_result(false, false, true),
            )
        } else {
            (s, toc_result(false, false, false))
        },
        TocTouchHit::ScrollDown => if s.toc_top_row < max_top {
            (
                clamp_toc_spec(BookReaderState { toc_top_row: (s.toc_top_row + 1) as usize, ..s }, len, visible),
                toc_result(false, false, true),
            )
        } else {
            (s, toc_result(false, false, false))
        },
        TocTouchHit::ScrollTrack(top_row) => {
            let new_top = min_usize(top_row, max_top);
            if s.toc_top_row != new_top {
                (clamp_toc_spec(BookReaderState { toc_top_row: new_top, ..s }, len, visible), toc_result(false, false, true))
            } else {
                (s, toc_result(false, false, false))
            }
        },
    }
}

/// A tap lifting off the table of contents: as on the way down for rows and
/// Cancel, and when it lifts where it went down, the row's page is opened or
/// Cancel leaves.
pub open spec fn toc_release_spec(s: BookReaderState, toc: Seq<TrbkTocEntry>, hit: TocTouchHit, pressed: Option<TocTouchHit>) -> (BookReaderState, TocResult) {
    match hit {
        TocTouchHit::Row(row) => {
            let row = min_usize(row, sat_sub(toc.len() as usize, 1));
            let changed = s.toc_selected != row || s.toc_cancel_focused;
            let s1 = BookReaderState { toc_selected: row, toc_cancel_focused: false, ..s };
            if pressed == Some(TocTouchHit::Row(row)) && row < toc.len() {
                (jump_to(s1, toc[row as int].page_index as usize), toc_result(false, true, true))
            } else {
                (s1, toc_result(false, false, changed))
            }
        },
        TocTouchHit::Cancel => {
            let s1 = BookReaderState { toc_cancel_focused: true, ..s };
            if pressed == Some(TocTouchHit::Cancel) {
                (s1, toc_result(true, false, true))
            } else {
                (s1, toc_result(false, false, !s.toc_cancel_focused))
            }
        },
        _ => (s, toc_result(false, false, false)),
    }
}

/// The book's table of contents, or nothing.
pub open spec fn book_toc(s: BookReaderState) -> Seq<TrbkTocEntry> {
    match s.current_book {
        Some(b) => b.toc@,
        None => Seq::empty(),
    }
}

/// What a menu command does: Contents selects the entry of the current page
/// (when the book has contents), Page, Stats and Help open their dialog.
pub open spec fn menu_command_spec(s: BookReaderState, command: ReaderMenuCommand) -> (BookReaderState, bool) {
    match command {
        ReaderMenuCommand::Contents => if s.current_book is Some && book_toc(s).len() > 0 {
            let sel = toc_selection_spec(book_toc(s), s.current_page) as usize;
            (BookReaderState { toc_selected: sel, toc_top_row: sat_sub(sel, 2), toc_cancel_focused: false, toc_labels: None, ..s }, true)
        } else {
            (s, false)
        },
        ReaderMenuCommand::Page => (
            BookReaderState {
                overlay: Some(ReaderOverlay::PageJump { target_page: s.current_page }),
                overlay_form: ModalFormController { focus: None },
                ..s
            },
            true,
        ),
        ReaderMenuCommand::Stats => (
            BookReaderState { overlay: Some(ReaderOverlay::Stats), overlay_form: ModalFormController { focus: None }, ..s },
            true,
        ),
        ReaderMenuCommand::Help => (s, true),
    }
}

impl BookReaderState {
    fn ensure_toc_labels(&mut self)
        ensures
            (BookReaderState { toc_labels: old(self).toc_labels, ..*final(self) }) == *old(self),
            labels_ensured(old(self).toc_labels, final(self).toc_labels, book_toc(*old(self))),
    {
        if self.toc_labels.is_some() {
            return;
        }
        let labels = match &self.current_book {
            Some(book) => toc_labels_of(book),
            None => Vec::new(),
        };
        self.toc_labels = Some(labels);
    }

    /// Keeps the top row from scrolling past the end and the selection
    /// inside the window; see [`clamp_toc_spec`].
    fn clamp_toc_selection_to_view(&mut self, total_rows: usize, visible_rows: usize)
        ensures
            *final(self) == clamp_toc_spec(*old(self), total_rows, visible_rows),
    {
        if total_rows == 0 || visible_rows == 0 {
            self.toc_selected = 0;
            self.toc_top_row = 0;
            self.toc_cancel_focused = false;
            return;
        }
        let max_top = total_rows.saturating_sub(visible_rows);
        self.toc_top_row = if self.toc_top_row < max_top { self.toc_top_row } else { max_top };
        let b = self.toc_top_row.saturating_add(visible_rows.saturating_sub(1));
        let last = total_rows.saturating_sub(1);
        let bottom = if b < last { b } else { last };
        if self.toc_selected < self.toc_top_row {
            self.toc_selected = self.toc_top_row;
        } else if self.toc_selected > bottom {
            self.toc_selected = bottom;
        }
    }

    /// Buttons on the table of contents, with `visible_rows` rows fitting in
    /// its list; see [`toc_input_spec`]. Without a book, it leaves.
    pub fn handle_toc_input(&mut self, buttons: &ButtonState, visible_rows: usize) -> (r: TocResult)
        requires
            (old(self).current_book is Some && !buttons.pressed(Buttons::Up) && buttons.pressed(Buttons::Down)
                && !old(self).toc_cancel_focused) ==> old(self).toc_selected < usize::MAX,
        ensures
            old(self).current_book is None ==> *final(self) == *old(self) && r == toc_result(true, false, true),
            old(self).current_book is Some ==> {
                &&& (BookReaderState { toc_labels: old(self).toc_labels, ..*final(self) }, r) == toc_input_spec(
                    *old(self),
                    book_toc(*old(self)),
                    visible_rows,
                    *buttons,
                )
                &&& labels_ensured(old(self).toc_labels, final(self).toc_labels, book_toc(*old(self)))
            },
    {
        let mut result = TocResult { exit: false, jumped: false, dirty: false };
        if self.current_book.is_none() {
            result.exit = true;
            result.dirty = true;
            return result;
        }
        self.ensure_toc_labels();
        let ghost labels = self.toc_labels;
        let toc_len = match &self.current_book {
            Some(book) => book.toc.len(),
            None => 0,
        };

        if buttons.is_pressed(Buttons::Up) {
            if self.toc_cancel_focused {
                self.toc_cancel_focused = false;
                result.dirty = true;
                return result;
            }
            if self.toc_selected > 0 {
                self.toc_selected -= 1;
                if self.toc_selected < self.toc_top_row {
                    self.toc_top_row = self.toc_selected;
                }
                result.dirty = true;
            }
            return result;
        }
        if buttons.is_pressed(Buttons::Down) {
            if self.toc_cancel_focused {
                return result;
            }
            if self.toc_selected + 1 < toc_len {
                self.toc_selected += 1;
                let bottom = self.toc_top_row.saturating_add(visible_rows.saturating_sub(1));
                if self.toc_selected > bottom {
                    self.toc_top_row = self.toc_selected.saturating_sub(visible_rows.saturating_sub(1));
                }
                result.dirty = true;
            } else {
                self.toc_cancel_focused = true;
                result.dirty = true;
            }
            return result;
        }
        if buttons.is_pressed(Buttons::Left) || buttons.is_pressed(Buttons::Right) {
            self.toc_cancel_focused = !self.toc_cancel_focused;
            result.dirty = true;
            return result;
        }
        if buttons.is_pressed(Buttons::Confirm) {
            if self.toc_cancel_focused {
                result.exit = true;
                result.dirty = true;
                return result;
            }
            let target = match &self.current_book {
                Some(book) => if self.toc_selected < book.toc.len() {
                    Some(book.toc[self.toc_selected].page_index as usize)
                } else {
                    None
                },
                None => None,
            };
            if let Some(page) = target {
                self.current_page = page;
                self.last_rendered_page = None;
                self.book_turns_since_full = 0;
                result.jumped = true;
                result.dirty = true;
            }
            return result;
        }
        if buttons.is_pressed(Buttons::Back) {
            result.exit = true;
            result.dirty = true;
            return result;
        }
        result
    }

    /// A tap going down on the table of contents, with `visible_rows` rows
    /// fitting in its list; see [`toc_press_spec`]. Without a book, it leaves.
    pub fn handle_toc_touch_press(&mut self, hit: TocTouchHit, visible_rows: usize) -> (r: TocResult)
        ensures
            old(self).current_book is None ==> *final(self) == *old(self) && r == toc_result(true, false, true),
            old(self).current_book is Some ==> {
                &&& (BookReaderState { toc_labels: old(self).toc_labels, ..*final(self) }, r) == toc_press_spec(
                    *old(self),
                    book_toc(*old(self)).len() as usize,
                    visible_rows,
                    hit,
                )
                &&& labels_ensured(old(self).toc_labels, final(self).toc_labels, book_toc(*old(self)))
            },
    {
        let mut result = TocResult { exit: false, jumped: false, dirty: false };
        if self.current_book.is_none() {
            result.exit = true;
            result.dirty = true;
            return result;
        }
        self.ensure_toc_labels();
        let toc_len = match &self.current_book {
            Some(book) => book.toc.len(),
            None => 0,
        };
        match hit {
            TocTouchHit::Row(row) => {
                let last = toc_len.saturating_sub(1);
                let row = if row < last { row } else { last };
                let changed = self.toc_selected != row || self.toc_cancel_focused;
                self.toc_selected = row;
                self.toc_cancel_focused = false;
                result.dirty = changed;
            },
            TocTouchHit::Cancel => {
                let changed = !self.toc_cancel_focused;
                self.toc_cancel_focused = true;
                result.dirty = changed;
            },
            TocTouchHit::ScrollUp => {
                if self.toc_top_row > 0 {
                    self.toc_top_row -= 1;
                    self.clamp_toc_selection_to_view(toc_len, visible_rows);
                    result.dirty = true;
                }
            },
            TocTouchHit::ScrollDown => {
                let max_top = toc_len.saturating_sub(visible_rows);
                if self.toc_top_row < max_top {
                    self.toc_top_row += 1;
                    self.clamp_toc_selection_to_view(toc_len, visible_rows);
                    result.dirty = true;
                }
            },
            TocTouchHit::ScrollTrack(top_row) => {
                let max_top = toc_len.saturating_sub(visible_rows);
                let new_top = if top_row < max_top { top_row } else { max_top };
                if self.toc_top_row != new_top {
                    self.toc_top_row = new_top;
                    self.clamp_toc_selection_to_view(toc_len, visible_rows);
                    result.dirty = true;
                }
            },
        }
        result
    }

    /// A tap lifting off the table of contents, where `pressed` is where it
    /// went down; see [`toc_release_spec`]. Without a book, it leaves.
    pub fn handle_toc_touch_release(&mut self, hit: TocTouchHit, pressed: Option<TocTouchHit>) -> (r: TocResult)
        ensures
            old(self).current_book is None ==> *final(self) == *old(self) && r == toc_result(true, false, true),
            old(self).current_book is Some ==> {
                &&& (BookReaderState { toc_labels: old(self).toc_labels, ..*final(self) }, r) == toc_release_spec(
                    *old(self),
                    book_toc(*old(self)),
                    hit,
                    pressed,
                )
                &&& labels_ensured(old(self).toc_labels, final(self).toc_labels, book_toc(*old(self)))
            },
    {
        let mut result = TocResult { exit: false, jumped: false, dirty: false };
        if self.current_book.is_none() {
            result.exit = true;
            result.dirty = true;
            return result;
        }
        self.ensure_toc_labels();
        let toc_len = match &self.current_book {
            Some(book) => book.toc.len(),
            None => 0,
        };
        match hit {
            TocTouchHit::Row(row) => {
                let last = toc_len.saturating_sub(1);
                let row = if row < last { row } else { last };
                let changed = self.toc_selected != row || self.toc_cancel_focused;
                self.toc_selected = row;
                self.toc_cancel_focused = false;
                if changed {
                    result.dirty = true;
                }
                if pressed == Some(TocTouchHit::Row(row)) {
                    let target = match &self.current_book {
                        Some(book) => if row < book.toc.len() {
                            Some(book.toc[row].page_index as usize)
                        } else {
                            None
                        },
                        None => None,
                    };
                    if let Some(page) = target {
                        self.current_page = page;
                        self.last_rendered_page = None;
                        self.book_turns_since_full = 0;
                        result.jumped = true;
                        result.dirty = true;
                    }
                }
            },
            TocTouchHit::Cancel => {
                let changed = !self.toc_cancel_focused;
                self.toc_cancel_focused = true;
                if changed {
                    result.dirty = true;
                }
                if pressed == Some(TocTouchHit::Cancel) {
                    result.exit = true;
                    result.dirty = true;
                }
            },
            TocTouchHit::ScrollUp | TocTouchHit::ScrollDown | TocTouchHit::ScrollTrack(_) => {},
        }
        result
    }

    /// Carries out a reader menu command; `false` when it does nothing (the
    /// contents of a book without any). Help opens the reader's help text;
    /// see [`menu_command_spec`].
    pub fn open_menu_command(&mut self, command: ReaderMenuCommand) -> (r: bool)
        ensures
            command != ReaderMenuCommand::Help ==> (*final(self), r) == menu_command_spec(*old(self), command),
            command == ReaderMenuCommand::Help ==> {
                &&& r
                &&& final(self).overlay matches Some(ReaderOverlay::Help(d)) && d.help_id == 1 && d.scroll_line == 0
                    && d.text@ == reader_help_text_spec()
                &&& *final(self) == (BookReaderState {
                    overlay: final(self).overlay,
                    overlay_form: ModalFormController { focus: None },
                    ..*old(self)
                })
            },
    {
        match command {
            ReaderMenuCommand::Contents => {
                let sel = match &self.current_book {
                    Some(book) => if book.toc.len() > 0 {
                        Some(find_toc_selection(book, self.current_page))
                    } else {
                        None
                    },
                    None => None,
                };
                if let Some(sel) = sel {
                    self.toc_selected = sel;
                    self.toc_top_row = self.toc_selected.saturating_sub(2);
                    self.toc_cancel_focused = false;
                    self.toc_labels = None;
                    return true;
                }
                false
            },
            ReaderMenuCommand::Page => {
                self.overlay = Some(ReaderOverlay::PageJump { target_page: self.current_page });
                self.overlay_form.reset();
                true
            },
            ReaderMenuCommand::Stats => {
                self.overlay = Some(ReaderOverlay::Stats);
                self.overlay_form.reset();
                true
            },
            ReaderMenuCommand::Help => {
                self.overlay = Some(ReaderOverlay::Help(RuntimeHelpDialog { help_id: 1, text: reader_help_text(), scroll_line: 0 }));
                self.overlay_form.reset();
                true
            },
        }
    }
}


/// The frame-buffer pixel under the display point `(x, y)` when the picture
/// is turned by `rotation`; `None` off the panel.
pub open spec fn display_point_spec(rotation: Rotation, x: i32, y: i32) -> Option<(usize, usize)> {
    let w = FB_WIDTH as int;
    let h = FB_HEIGHT as int;
    let p: Option<(int, int)> = if x < 0 || y < 0 {
        None
    } else {
        match rotation {
            Rotation::Rotate0 => Some((x as int, y as int)),
            Rotation::Rotate90 => if x >= h { None } else { Some((y as int, h - 1 - x)) },
            Rotation::Rotate180 => if x >= w || y >= h { None } else { Some((w - 1 - x, h - 1 - y)) },
            Rotation::Rotate270 => if y >= w { None } else { Some((w - 1 - y, x as int)) },
        }
    };
    match p {
        Some((fx, fy)) => if fx >= w || fy >= h { None } else { Some((fx as usize, fy as usize)) },
        None => None,
    }
}

/// Maps a display point to the frame buffer; see [`display_point_spec`].
pub fn map_display_point(rotation: Rotation, x: i32, y: i32) -> (r: Option<(usize, usize)>)
    ensures
        r == display_point_spec(rotation, x, y),
{
    if x < 0 || y < 0 {
        return None;
    }
    let xu = x as usize;
    let yu = y as usize;
    let (fx, fy) = match rotation {
        Rotation::Rotate0 => (xu, yu),
        Rotation::Rotate90 => {
            if xu >= FB_HEIGHT {
                return None;
            }
            (yu, FB_HEIGHT - 1 - xu)
        },
        Rotation::Rotate180 => {
            if xu >= FB_WIDTH || yu >= FB_HEIGHT {
                return None;
            }
            (FB_WIDTH - 1 - xu, FB_HEIGHT - 1 - yu)
        },
        Rotation::Rotate270 => {
            if yu >= FB_WIDTH {
                return None;
            }
            (FB_WIDTH - 1 - yu, xu)
        },
    };
    if fx >= FB_WIDTH || fy >= FB_HEIGHT {
        None
    } else {
        Some((fx, fy))
    }
}

/// A mapped point always lies on the frame buffer, and turning the picture
/// half way round twice leads back to the point.
pub proof fn lemma_display_point_on_frame(rotation: Rotation, x: i32, y: i32)
    ensures
        display_point_spec(rotation, x, y) matches Some((fx, fy)) ==> fx < FB_WIDTH && fy < FB_HEIGHT,
        display_point_spec(Rotation::Rotate180, x, y) matches Some((fx, fy))
            ==> display_point_spec(Rotation::Rotate180, fx as i32, fy as i32) == Some((x as usize, y as usize)),
{
}

/// The table of the contents dialog: inside the dialog's frame, from under
/// its title down to 14 pixels above the Cancel button, leaving room for the
/// scroll bar on the right.
pub open spec fn toc_table_rect_spec(modal: Rect, cancel_rect: Rect) -> Rect {
    Rect {
        x: (modal.x + 14) as i32,
        y: (modal.y + 44) as i32,
        w: (modal.w - 28 - 12) as i32,
        h: ((cancel_rect.y - 14) - (modal.y + 44)) as i32,
    }
}

pub open spec fn fits_i32(v: int) -> bool {
    i32::MIN <= v <= i32::MAX
}

/// Where the list of the contents dialog goes; see [`toc_table_rect_spec`].
pub fn toc_table_rect(modal: Rect, cancel_rect: Rect) -> (r: Rect)
    requires
        fits_i32(modal.x + 14),
        fits_i32(modal.y + 44),
        fits_i32(modal.w - 40),
        fits_i32(cancel_rect.y - 14),
        fits_i32(cancel_rect.y - 14 - (modal.y + 44)),
    ensures
        r == toc_table_rect_spec(modal, cancel_rect),
{
    Rect::new(modal.x + 14, modal.y + 44, modal.w - 28 - 12, (cancel_rect.y - 14) - (modal.y + 44))
}

/// The selection of the table of contents is a row of it, inside the window
/// of `visible` rows that starts at the top row.
pub open spec fn toc_window_ok(s: BookReaderState, total: int, visible: int) -> bool {
    &&& s.toc_selected < total
    &&& s.toc_top_row <= s.toc_selected
    &&& s.toc_selected < s.toc_top_row + visible
}

/// Turning pages with the buttons never leaves the book.
pub proof fn lemma_page_turn_stays_in_book(s: BookReaderState, b: ButtonState)
    requires
        s.current_book is Some,
        s.current_page < s.current_book.unwrap().page_count,
    ensures
        view_input_spec(s, b).0.current_page < s.current_book.unwrap().page_count,
        view_input_spec(s, b).0.current_book == s.current_book,
{
}

/// A page turned forward is turned back by a press of Left.
pub proof fn lemma_page_turn_round_trip(s: BookReaderState, forward: ButtonState, back: ButtonState)
    requires
        s.current_book is Some,
        s.current_page + 1 < s.current_book.unwrap().page_count,
        forward.pressed(Buttons::Right),
        !forward.pressed(Buttons::Left),
        !forward.pressed(Buttons::Up),
        back.pressed(Buttons::Left),
    ensures
        view_input_spec(s, forward).0.current_page == s.current_page + 1,
        view_input_spec(view_input_spec(s, forward).0, back).0.current_page == s.current_page,
        view_input_spec(s, forward).1.dirty,
        view_input_spec(view_input_spec(s, forward).0, back).1.dirty,
{
}

/// The page-number dialog keeps its page inside the book whatever is
/// pressed, and OK opens a page of the book.
pub proof fn lemma_page_jump_stays_in_book(s: BookReaderState, action: ModalFormAction)
    requires
        s.overlay matches Some(ReaderOverlay::PageJump { target_page }) && target_page < max1(jump_page_count(s)),
    ensures
        overlay_action_spec(s, action).0.overlay matches Some(ReaderOverlay::PageJump { target_page })
            ==> target_page < max1(jump_page_count(s)),
        overlay_action_spec(s, action).1.jumped ==> overlay_action_spec(s, action).0.current_page < max1(jump_page_count(s)),
        overlay_action_spec(s, action).0.current_book == s.current_book,
{
    let page_count = jump_page_count(s);
    if let ModalFormAction::Activate(id) = action {
        let base = if READER_OVERLAY_DIGIT_UP_BASE <= id < READER_OVERLAY_DIGIT_UP_BASE + 16 {
            READER_OVERLAY_DIGIT_UP_BASE
        } else {
            READER_OVERLAY_DIGIT_DOWN_BASE
        };
        let digits = num_digits(max1(page_count));
        let index = id - base;
        if 0 <= index < digits {
            let target = s.overlay->Some_0->target_page;
            let display = display_value_spec(target, page_count);
            let delta: i32 = if base == READER_OVERLAY_DIGIT_UP_BASE { -1i32 } else { 1i32 };
            let next = adjust_digit_spec(display as usize, page_count, digits as usize, index as usize, delta);
            assert(1 <= next <= max1(page_count));
        }
    }
}

/// Opening the page-number dialog and pressing OK at once stays on the page.
pub proof fn lemma_page_jump_ok_keeps_page(s: BookReaderState)
    ensures
        ({
            let opened = menu_command_spec(s, ReaderMenuCommand::Page).0;
            overlay_action_spec(opened, ModalFormAction::Activate(READER_OVERLAY_BTN_OK)).0.current_page == s.current_page
        }),
{
}

/// Opening the page-number dialog and cancelling it gives back the reader
/// as it was, when no dialog was open.
pub proof fn lemma_page_jump_cancel_undoes_open(s: BookReaderState)
    requires
        s.overlay is None,
        s.overlay_form.focus is None,
    ensures
        ({
            let opened = menu_command_spec(s, ReaderMenuCommand::Page).0;
            overlay_action_spec(opened, ModalFormAction::Activate(READER_OVERLAY_BTN_CANCEL)).0 == s
        }),
{
}

/// After a clamp to a non-empty list and window, the selection is a row
/// inside the window.
pub proof fn lemma_clamp_toc_shows_selection(s: BookReaderState, total: usize, visible: usize)
    requires
        total > 0,
        visible > 0,
    ensures
        toc_window_ok(clamp_toc_spec(s, total, visible), total as int, visible as int),
{
}

/// The buttons keep the selection of the table of contents a row inside the
/// window.
pub proof fn lemma_toc_input_keeps_window(s: BookReaderState, toc: Seq<TrbkTocEntry>, visible: usize, b: ButtonState)
    requires
        toc.len() <= usize::MAX,
        toc_window_ok(s, toc.len() as int, visible as int),
    ensures
        toc_window_ok(toc_input_spec(s, toc, visible, b).0, toc.len() as int, visible as int),
{
}

/// The entry chosen for a page starts on or before it, as do all entries
/// before it, and the entry after it (if any) starts after the page; this
/// holds when the first entry starts on or before the page.
pub proof fn lemma_toc_selection_is_last_started(toc: Seq<TrbkTocEntry>, page: usize)
    requires
        toc.len() > 0,
        toc[0].page_index as int <= page as int,
    ensures
        0 <= toc_selection_spec(toc, page) < toc.len(),
        forall|j: int| 0 <= j <= toc_selection_spec(toc, page) ==> #[trigger] toc[j].page_index as int <= page as int,
        toc_selection_spec(toc, page) + 1 < toc.len() ==> toc[toc_selection_spec(toc, page) + 1].page_index as int > page as int,
{
    lemma_toc_selection_run(toc, page, 1, 0);
}

proof fn lemma_toc_selection_run(toc: Seq<TrbkTocEntry>, page: usize, i: int, selected: int)
    requires
        1 <= i <= toc.len(),
        selected == i - 1,
        forall|j: int| 0 <= j < i ==> #[trigger] toc[j].page_index as int <= page as int,
    ensures
        i - 1 <= toc_selection_from(toc, page, i, selected) < toc.len(),
        forall|j: int| 0 <= j <= toc_selection_from(toc, page, i, selected) ==> #[trigger] toc[j].page_index as int <= page as int,
        toc_selection_from(toc, page, i, selected) + 1 < toc.len()
            ==> toc[toc_selection_from(toc, page, i, selected) + 1].page_index as int > page as int,
    decreases toc.len() - i,
{
    if i < toc.len() && toc[i].page_index as int <= page as int {
        lemma_toc_selection_run(toc, page, i + 1, i);
    }
}

/// The digit columns of the page-number dialog are decimal places: the last
/// column counts ones, and each column weighs ten times the one to its
/// right (for dialogs of up to ten columns, where no weight saturates).
pub proof fn lemma_place_values_are_decimal(digits: usize, index: usize)
    requires
        1 <= digits <= 10,
        index < digits,
    ensures
        index + 1 == digits ==> place_value_spec(digits, index) == 1,
        index + 1 < digits ==> place_value_spec(digits, index) == 10 * place_value_spec(digits, (index + 1) as usize),
{
    let e = digits - (index + 1);
    lemma_pow10_monotone(e as nat, 9);
    assert(pow10(9) == 1_000_000_000) by {
        reveal_with_fuel(pow10, 10);
    }
    if index + 1 < digits {
        lemma_pow10_monotone((e - 1) as nat, 9);
        assert(pow10(e as nat) == 10 * pow10((e - 1) as nat));
    }
}

/// Pressing the down button of a column raises the shown page by exactly
/// the column's weight when the result stays in the book, and the up button
/// then brings it back.
pub proof fn lemma_digit_buttons_move_by_place(display_value: usize, page_count: usize, digits: usize, index: usize)
    requires
        1 <= display_value,
        display_value + place_value_spec(digits, index) <= max1(page_count),
    ensures
        adjust_digit_spec(display_value, page_count, digits, index, 1i32) == display_value + place_value_spec(digits, index),
        adjust_digit_spec(
            (display_value + place_value_spec(digits, index)) as usize,
            page_count,
            digits,
            index,
            -1i32,
        ) == display_value,
{
}

} // verus!
