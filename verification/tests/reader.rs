use std::collections::BTreeMap;
use std::rc::Rc;

use lib::app::book_reader::{
    find_toc_selection, reader_menu_bar, reader_menu_command, BookReaderState, PageTurnIndicator, ReaderMenuCommand,
    ReaderOverlay, TocTouchHit, READER_OVERLAY_BTN_CANCEL, READER_OVERLAY_BTN_OK, READER_OVERLAY_DIGIT_DOWN_BASE,
    READER_OVERLAY_DIGIT_UP_BASE,
};
use lib::app::reader_shell::{from_status_hit, help_dialog_rect, nav_event_from_buttons, to_status_hit, ReaderStatusBarFocus};
use lib::image_viewer::{
    BookSource, EntryKind, Gray2StreamSource, ImageData, ImageEntry, ImageError, ImageSource, PersistenceSource, PowerSource,
};
use lib::input::{ButtonState, Buttons};
use lib::trbk::{TrbkBookInfo, TrbkTocEntry};
use lib::ui::{HelpDialogAction, ModalFormAction, Rect, StatusBarHit, UiNavEvent};

struct Shelf {
    book: Option<Rc<TrbkBookInfo>>,
    closed: bool,
}

impl ImageSource for Shelf {
    fn refresh(&mut self, _path: &[String]) -> Result<Vec<ImageEntry>, ImageError> {
        Ok(Vec::new())
    }

    fn load(&mut self, _path: &[String], _entry: &ImageEntry) -> Result<ImageData, ImageError> {
        Err(ImageError::Unsupported)
    }
}

impl BookSource for Shelf {
    fn open_trbk(&mut self, _path: &[String], _entry: &ImageEntry) -> Result<Rc<TrbkBookInfo>, ImageError> {
        match &self.book {
            Some(b) => Ok(b.clone()),
            None => Err(ImageError::Io),
        }
    }

    fn close_trbk(&mut self) {
        self.closed = true;
    }
}

impl Gray2StreamSource for Shelf {}
impl PersistenceSource for Shelf {}
impl PowerSource for Shelf {}

fn entry(title: &str, page_index: u32) -> TrbkTocEntry {
    TrbkTocEntry { title: title.to_string(), level: 0, page_index }
}

fn book(page_count: usize, toc: Vec<TrbkTocEntry>) -> Rc<TrbkBookInfo> {
    Rc::new(TrbkBookInfo { page_count, toc })
}

fn reader_with(page_count: usize, toc: Vec<TrbkTocEntry>, page: usize) -> BookReaderState {
    let mut r = BookReaderState::new();
    r.current_book = Some(book(page_count, toc));
    r.current_page = page;
    r
}

fn press(b: Buttons) -> ButtonState {
    ButtonState::only(b)
}

fn empty_shelf() -> Shelf {
    Shelf { book: None, closed: false }
}

#[test]
fn new_reader_is_empty() {
    let r = BookReaderState::new();
    assert!(!r.has_book());
    assert_eq!(r.current_page, 0);
    assert!(!r.has_overlay());
    assert!(r.help_dialog().is_none());
}

#[test]
fn open_starts_at_the_saved_position() {
    let mut shelf = Shelf { book: Some(book(10, vec![])), closed: false };
    let mut positions = BTreeMap::new();
    positions.insert("novel.trbk".to_string(), 4usize);
    let e = ImageEntry { name: "novel.trbk".to_string(), kind: EntryKind::File };
    let mut r = BookReaderState::new();
    assert!(r.open(&mut shelf, &[], &e, "novel.trbk", &positions).is_ok());
    assert!(r.has_book());
    assert_eq!(r.current_page, 4);
    let mut r2 = BookReaderState::new();
    assert!(r2.open(&mut shelf, &[], &e, "other.trbk", &positions).is_ok());
    assert_eq!(r2.current_page, 0);
}

#[test]
fn failed_open_leaves_the_reader_alone() {
    let mut shelf = empty_shelf();
    let e = ImageEntry { name: "x".to_string(), kind: EntryKind::File };
    let mut r = reader_with(5, vec![], 2);
    assert!(matches!(r.open(&mut shelf, &[], &e, "x", &BTreeMap::new()), Err(ImageError::Io)));
    assert_eq!(r.current_page, 2);
    assert!(r.has_book());
}

#[test]
fn close_forgets_the_book() {
    let mut shelf = empty_shelf();
    let mut r = reader_with(5, vec![], 3);
    r.close(&mut shelf);
    assert!(shelf.closed);
    assert!(!r.has_book());
    assert_eq!(r.current_page, 0);
}

#[test]
fn pages_turn_within_the_book() {
    let mut shelf = empty_shelf();
    let mut r = reader_with(3, vec![], 0);
    let res = r.handle_view_input(&mut shelf, &press(Buttons::Right));
    assert!(res.dirty && !res.exit);
    assert_eq!(r.current_page, 1);
    assert!(matches!(r.take_page_turn_indicator(), Some(PageTurnIndicator::Forward)));
    assert!(r.take_page_turn_indicator().is_none());
    r.handle_view_input(&mut shelf, &press(Buttons::Down));
    assert_eq!(r.current_page, 2);
    let res = r.handle_view_input(&mut shelf, &press(Buttons::Right));
    assert!(!res.dirty);
    assert_eq!(r.current_page, 2);
    assert_eq!(r.book_turns_since_full, 2);
    let res = r.handle_view_input(&mut shelf, &press(Buttons::Left));
    assert!(res.dirty);
    assert_eq!(r.current_page, 1);
    assert!(matches!(r.page_turn_indicator, Some(PageTurnIndicator::Backward)));
}

#[test]
fn first_page_does_not_go_back() {
    let mut shelf = empty_shelf();
    let mut r = reader_with(3, vec![], 0);
    let res = r.handle_view_input(&mut shelf, &press(Buttons::Up));
    assert!(!res.dirty);
    assert_eq!(r.current_page, 0);
}

#[test]
fn back_leaves_the_book() {
    let mut shelf = empty_shelf();
    let mut r = reader_with(3, vec![], 1);
    let res = r.handle_view_input(&mut shelf, &press(Buttons::Back));
    assert!(res.exit && res.dirty);
    let res = r.handle_view_input(&mut shelf, &ButtonState::new());
    assert!(!res.exit && !res.dirty && !res.open_toc);
}

#[test]
fn page_dialog_down_button_raises_a_digit() {
    let mut r = reader_with(120, vec![], 40);
    assert!(r.open_menu_command(ReaderMenuCommand::Page));
    assert!(matches!(r.overlay, Some(ReaderOverlay::PageJump { target_page: 40 })));
    // Three digit columns; the last is the ones.
    let res = r.apply_overlay_action(ModalFormAction::Activate(READER_OVERLAY_DIGIT_DOWN_BASE + 2));
    assert!(res.dirty && !res.close);
    assert!(matches!(r.overlay, Some(ReaderOverlay::PageJump { target_page: 41 })));
    let res = r.apply_overlay_action(ModalFormAction::Activate(READER_OVERLAY_BTN_OK));
    assert!(res.close && res.jumped);
    assert_eq!(r.current_page, 41);
    assert!(r.overlay.is_none());
}

#[test]
fn page_dialog_up_button_lowers_and_clamps() {
    let mut r = reader_with(120, vec![], 150);
    r.open_menu_command(ReaderMenuCommand::Page);
    // Shown as 120 (clamped), hundreds up: 20, page index 19.
    r.apply_overlay_action(ModalFormAction::Activate(READER_OVERLAY_DIGIT_UP_BASE));
    assert!(matches!(r.overlay, Some(ReaderOverlay::PageJump { target_page: 19 })));
    r.apply_overlay_action(ModalFormAction::Activate(READER_OVERLAY_DIGIT_UP_BASE));
    assert!(matches!(r.overlay, Some(ReaderOverlay::PageJump { target_page: 0 })));
    // Beyond the last column nothing happens.
    let res = r.apply_overlay_action(ModalFormAction::Activate(READER_OVERLAY_DIGIT_UP_BASE + 3));
    assert!(!res.dirty);
}

#[test]
fn page_dialog_cancel_keeps_the_page() {
    let mut r = reader_with(10, vec![], 5);
    r.open_menu_command(ReaderMenuCommand::Page);
    r.apply_overlay_action(ModalFormAction::Activate(READER_OVERLAY_DIGIT_DOWN_BASE + 1));
    let res = r.apply_overlay_action(ModalFormAction::Activate(READER_OVERLAY_BTN_CANCEL));
    assert!(res.close && !res.jumped);
    assert_eq!(r.current_page, 5);
    assert!(!r.has_overlay());
}

#[test]
fn stats_dialog_closes_on_ok() {
    let mut r = reader_with(10, vec![], 5);
    assert!(r.open_menu_command(ReaderMenuCommand::Stats));
    assert!(r.has_overlay());
    assert!(!r.apply_overlay_action(ModalFormAction::Activate(999)).close);
    assert!(r.apply_overlay_action(ModalFormAction::Redraw).dirty);
    assert!(r.apply_overlay_action(ModalFormAction::Activate(READER_OVERLAY_BTN_OK)).close);
    assert!(!r.has_overlay());
}

#[test]
fn help_dialog_scrolls_and_dismisses() {
    let mut r = reader_with(10, vec![], 0);
    assert!(r.open_menu_command(ReaderMenuCommand::Help));
    let d = r.help_dialog().expect("help");
    assert_eq!(d.help_id, 1);
    assert!(d.text.starts_with("Left/Up: previous page"));
    r.apply_help_action(HelpDialogAction::Scroll(3));
    assert_eq!(r.help_dialog().expect("help").scroll_line, 3);
    r.apply_help_action(HelpDialogAction::Scroll(-5));
    assert_eq!(r.help_dialog().expect("help").scroll_line, 0);
    let res = r.apply_help_action(HelpDialogAction::Dismiss);
    assert!(res.close);
    assert!(r.help_dialog().is_none());
}

#[test]
fn toc_entry_for_a_page() {
    let b = TrbkBookInfo { page_count: 20, toc: vec![entry("One", 0), entry("Two", 5), entry("Three", 9)] };
    assert_eq!(find_toc_selection(&b, 0), 0);
    assert_eq!(find_toc_selection(&b, 6), 1);
    assert_eq!(find_toc_selection(&b, 9), 2);
    assert_eq!(find_toc_selection(&b, 19), 2);
    let late = TrbkBookInfo { page_count: 20, toc: vec![entry("Late", 3)] };
    assert_eq!(find_toc_selection(&late, 1), 0);
}

#[test]
fn contents_selects_the_current_chapter_and_jumps() {
    let mut r = reader_with(20, vec![entry("One", 0), entry("Two", 5), entry("Three", 9)], 6);
    assert!(r.open_menu_command(ReaderMenuCommand::Contents));
    assert_eq!(r.toc_selected, 1);
    assert_eq!(r.toc_top_row, 0);
    let res = r.handle_toc_input(&press(Buttons::Down), 2);
    assert!(res.dirty);
    assert_eq!(r.toc_selected, 2);
    assert_eq!(r.toc_top_row, 1);
    let res = r.handle_toc_input(&press(Buttons::Confirm), 2);
    assert!(res.jumped);
    assert_eq!(r.current_page, 9);
}

#[test]
fn contents_of_a_book_without_any_does_nothing() {
    let mut r = reader_with(20, vec![], 6);
    assert!(!r.open_menu_command(ReaderMenuCommand::Contents));
}

#[test]
fn toc_down_past_the_end_focuses_cancel() {
    let mut r = reader_with(20, vec![entry("One", 0), entry("Two", 5)], 0);
    r.toc_selected = 1;
    r.handle_toc_input(&press(Buttons::Down), 5);
    assert!(r.toc_cancel_focused);
    let res = r.handle_toc_input(&press(Buttons::Confirm), 5);
    assert!(res.exit);
    let res = r.handle_toc_input(&press(Buttons::Up), 5);
    assert!(res.dirty);
    assert!(!r.toc_cancel_focused);
}

#[test]
fn toc_labels_are_built_on_input() {
    let mut r = reader_with(20, vec![entry("One", 0)], 0);
    r.handle_toc_input(&ButtonState::new(), 5);
    assert!(r.toc_labels.is_some());
}

#[test]
fn toc_without_a_book_leaves() {
    let mut r = BookReaderState::new();
    let res = r.handle_toc_input(&press(Buttons::Down), 5);
    assert!(res.exit && res.dirty);
}

#[test]
fn toc_tap_on_a_row_opens_it() {
    let mut r = reader_with(20, vec![entry("One", 0), entry("Two", 5), entry("Three", 9)], 0);
    let res = r.handle_toc_touch_press(TocTouchHit::Row(2), 3);
    assert!(res.dirty && !res.jumped);
    assert_eq!(r.toc_selected, 2);
    let res = r.handle_toc_touch_release(TocTouchHit::Row(2), Some(TocTouchHit::Row(2)));
    assert!(res.jumped);
    assert_eq!(r.current_page, 9);
}

#[test]
fn toc_tap_on_cancel_leaves() {
    let mut r = reader_with(20, vec![entry("One", 0)], 0);
    r.handle_toc_touch_press(TocTouchHit::Cancel, 3);
    assert!(r.toc_cancel_focused);
    let res = r.handle_toc_touch_release(TocTouchHit::Cancel, Some(TocTouchHit::Cancel));
    assert!(res.exit);
}

#[test]
fn toc_scroll_bar_keeps_selection_in_view() {
    let toc: Vec<TrbkTocEntry> = (0..10).map(|i| entry("Chapter", i)).collect();
    let mut r = reader_with(20, toc, 0);
    let res = r.handle_toc_touch_press(TocTouchHit::ScrollTrack(6), 3);
    assert!(res.dirty);
    assert_eq!(r.toc_top_row, 6);
    assert_eq!(r.toc_selected, 6);
    r.handle_toc_touch_press(TocTouchHit::ScrollDown, 3);
    assert_eq!(r.toc_top_row, 7);
    assert_eq!(r.toc_selected, 7);
    let res = r.handle_toc_touch_press(TocTouchHit::ScrollDown, 3);
    assert!(!res.dirty);
    r.handle_toc_touch_press(TocTouchHit::ScrollUp, 3);
    assert_eq!(r.toc_top_row, 6);
    assert_eq!(r.toc_selected, 7);
}

#[test]
fn reader_menu_commands() {
    let bar = reader_menu_bar();
    assert_eq!(bar.menus.len(), 2);
    for m in &bar.menus {
        for item in &m.items {
            assert!(reader_menu_command(item.id).is_some());
        }
    }
    assert_eq!(reader_menu_command(100), Some(ReaderMenuCommand::Contents));
    assert_eq!(reader_menu_command(101), Some(ReaderMenuCommand::Page));
    assert_eq!(reader_menu_command(200), Some(ReaderMenuCommand::Stats));
    assert_eq!(reader_menu_command(201), Some(ReaderMenuCommand::Help));
    assert_eq!(reader_menu_command(7), None);
}

#[test]
fn status_bar_focus_round_trip() {
    for f in [None, Some(ReaderStatusBarFocus::Home), Some(ReaderStatusBarFocus::Menu)] {
        assert_eq!(from_status_hit(to_status_hit(f)), f);
    }
    assert_eq!(to_status_hit(Some(ReaderStatusBarFocus::Menu)), Some(StatusBarHit::Menu));
}

#[test]
fn button_priority_for_navigation() {
    let mut b = ButtonState::new();
    assert_eq!(nav_event_from_buttons(&b), None);
    b.press(Buttons::Confirm);
    assert_eq!(nav_event_from_buttons(&b), Some(UiNavEvent::Confirm));
    b.press(Buttons::Down);
    assert_eq!(nav_event_from_buttons(&b), Some(UiNavEvent::Down));
    b.press(Buttons::Back);
    assert_eq!(nav_event_from_buttons(&b), Some(UiNavEvent::Back));
}

#[test]
fn help_dialog_sits_under_the_status_bar() {
    assert_eq!(help_dialog_rect(), Rect { x: 18, y: 42, w: 448, h: 236 });
}

#[test]
fn open_book_takes_in_the_sources_answer() {
    let mut r = reader_with(5, vec![], 2);
    let res = r.open_book(Err(ImageError::Message("gone".to_string())), "x", &BTreeMap::new());
    assert!(matches!(res, Err(ImageError::Message(m)) if m == "gone"));
    assert_eq!(r.current_page, 2);
    let mut positions = BTreeMap::new();
    positions.insert("x".to_string(), 7usize);
    let res = r.open_book(Ok(book(12, vec![])), "x", &positions);
    assert!(res.is_ok());
    assert_eq!(r.current_page, 7);
    assert_eq!(r.current_book.as_ref().map(|b| b.page_count), Some(12));
    assert!(r.last_rendered_page.is_none());
}

#[test]
fn default_book_source_opens_nothing() {
    struct Bare;
    impl ImageSource for Bare {
        fn refresh(&mut self, _path: &[String]) -> Result<Vec<ImageEntry>, ImageError> {
            Ok(Vec::new())
        }
        fn load(&mut self, _path: &[String], _entry: &ImageEntry) -> Result<ImageData, ImageError> {
            Err(ImageError::Decode)
        }
    }
    impl BookSource for Bare {}
    impl Gray2StreamSource for Bare {}
    impl PersistenceSource for Bare {}
    impl PowerSource for Bare {}
    let mut src = Bare;
    let e = ImageEntry { name: "b".to_string(), kind: EntryKind::File };
    assert!(matches!(src.open_trbk(&[], &e), Err(ImageError::Unsupported)));
    assert!(src.load_recent_entries().is_empty());
    assert!(src.load_thumbnail("k").is_none());
    let mut r = BookReaderState::new();
    assert!(matches!(r.open(&mut src, &[], &e, "b", &BTreeMap::new()), Err(ImageError::Unsupported)));
    assert!(!r.has_book());
}

#[test]
fn open_book_at_starts_from_the_saved_page_or_the_first() {
    let mut r = BookReaderState::new();
    assert!(r.open_book_at(Ok(book(9, vec![])), Some(4)).is_ok());
    assert_eq!(r.current_page, 4);
    assert!(r.open_book_at(Ok(book(9, vec![])), None).is_ok());
    assert_eq!(r.current_page, 0);
    let res = r.open_book_at(Err(ImageError::Message("no".to_string())), Some(3));
    assert!(res.is_err());
    assert_eq!(r.current_page, 0);
}

#[test]
fn overlay_buttons_apply_what_the_form_reports() {
    let mut r = reader_with(10, vec![], 1);
    r.overlay = Some(ReaderOverlay::PageJump { target_page: 3 });
    let res = r.handle_overlay_input(&ButtonState::new(), ModalFormAction::Activate(READER_OVERLAY_BTN_OK));
    assert!(!res.dirty);
    assert_eq!(r.current_page, 1);
    let res = r.handle_overlay_input(&ButtonState::only(Buttons::Confirm), ModalFormAction::Activate(READER_OVERLAY_BTN_OK));
    assert!(res.jumped && res.close);
    assert_eq!(r.current_page, 3);
    assert!(r.overlay.is_none());
}
