use lib::app::book_reader::ReaderOverlay;
use lib::app::reader_shell::ReaderStatusBarFocus;
use lib::app::settings::ABOUT_OK_ID;
use lib::application::reader_touch::{HelpOverlayHit, ModalTouch, ReaderTouchHits};
use lib::application::start_menu_touch::StartMenuTouchHits;
use lib::application::prc_touch::{FormControlKind, PrcTouchAction, PrcTouchHits};
use lib::palm::shell::{PrcPaneLayout, PrcStatusBarFocus};
use lib::application::{AppState, Application, WakeTarget};
use lib::input::{ButtonState, Buttons, PlatformInputEvent};
use lib::ui::{ModalFormAction, RuntimeHelpDialog, StatusBarHit};

fn no_hits() -> ReaderTouchHits {
    ReaderTouchHits {
        help: None,
        help_scroll_step: 3,
        overlay: None,
        toc: None,
        toc_visible_rows: 8,
        menu_active: false,
        status: None,
    }
}

fn start_hits() -> StartMenuTouchHits {
    StartMenuTouchHits {
        record_detail: None,
        about: None,
        menu_active: false,
        width: 480,
        height: 800,
        table_hit: None,
        scrollbar_hit: None,
    }
}

#[test]
fn power_on_the_launcher_asks_for_sleep() {
    let mut app = Application::new();
    let step = app.update_with_events(&ButtonState::only(Buttons::Power), &[], 16);
    assert_eq!(app.state, AppState::SleepingPending);
    assert_eq!(step.sleep_request, Some(true));
    assert!(!step.dispatch);
    assert!(app.dirty);
}

#[test]
fn power_while_asleep_wakes_to_the_launcher() {
    let mut app = Application::new();
    app.state = AppState::Sleeping;
    app.sleep_overlay = true;
    app.dirty = false;
    let step = app.update_with_events(&ButtonState::only(Buttons::Power), &[], 16);
    assert_eq!(app.state, AppState::StartMenu);
    assert_eq!(step.wake, Some(WakeTarget::StartMenu));
    assert!(step.restore_overlay);
    assert!(!app.sleep_overlay);
    assert!(app.dirty);
}

#[test]
fn power_while_asleep_with_a_picture_open_wakes_to_it() {
    let mut app = Application::new();
    app.state = AppState::Sleeping;
    app.sleep_overlay = true;
    app.image_open = true;
    let step = app.update_with_events(&ButtonState::only(Buttons::Power), &[], 16);
    assert_eq!(app.state, AppState::Viewing);
    assert_eq!(step.wake, Some(WakeTarget::Image));
}

#[test]
fn asleep_without_power_nothing_changes() {
    let mut app = Application::new();
    app.state = AppState::Sleeping;
    let step = app.update_with_events(&ButtonState::only(Buttons::Confirm), &[], 16);
    assert_eq!(app.state, AppState::Sleeping);
    assert!(step.wake.is_none());
    assert!(step.dispatch);
    assert!(step.reset_idle);
}

#[test]
fn the_launcher_scans_the_install_folder_every_two_seconds() {
    let mut app = Application::new();
    let step = app.update_with_events(&ButtonState::new(), &[], 1500);
    assert!(!step.scan_install_inbox);
    assert_eq!(app.install_scan_elapsed_ms, 1500);
    assert!(!step.reset_idle);
    let step = app.update_with_events(&ButtonState::new(), &[PlatformInputEvent::TouchMove { x: 1, y: 1 }], 600);
    assert!(step.scan_install_inbox);
    assert!(step.reset_idle);
    assert_eq!(app.install_scan_elapsed_ms, 0);
}

#[test]
fn reader_home_tap_exits_the_book() {
    let mut app = Application::new();
    app.state = AppState::BookViewing;
    let hits = ReaderTouchHits { status: Some(StatusBarHit::Home), ..no_hits() };
    let r = app.reader_handle_touch_event(&PlatformInputEvent::TouchDown { x: 5, y: 5 }, &hits);
    assert!(r.handled);
    assert_eq!(app.reader_touch_pressed_status, Some(ReaderStatusBarFocus::Home));
    let r = app.reader_handle_touch_event(&PlatformInputEvent::TouchUp { x: 5, y: 5 }, &hits);
    assert!(r.handled);
    assert_eq!(app.state, AppState::ExitingPending);
    assert_eq!(app.reader_touch_pressed_status, None);
}

#[test]
fn reader_menu_tap_opens_the_menu_and_moves_are_ignored() {
    let mut app = Application::new();
    app.state = AppState::BookViewing;
    let hits = ReaderTouchHits { status: Some(StatusBarHit::Menu), ..no_hits() };
    let r = app.reader_handle_touch_event(&PlatformInputEvent::TouchMove { x: 5, y: 5 }, &hits);
    assert!(!r.handled);
    app.reader_handle_touch_event(&PlatformInputEvent::TouchDown { x: 5, y: 5 }, &hits);
    let r = app.reader_handle_touch_event(&PlatformInputEvent::TouchUp { x: 5, y: 5 }, &hits);
    assert!(r.open_menu);
    let menu = ReaderTouchHits { menu_active: true, ..hits };
    let r = app.reader_handle_touch_event(&PlatformInputEvent::TouchDown { x: 5, y: 5 }, &menu);
    assert!(r.to_menu && !r.handled);
}

#[test]
fn reader_help_scroll_arrow_scrolls_on_the_way_down() {
    let mut app = Application::new();
    app.state = AppState::BookViewing;
    app.book_reader.overlay = Some(ReaderOverlay::Help(RuntimeHelpDialog {
        help_id: 1,
        text: String::from("help"),
        scroll_line: 0,
    }));
    let hits = ReaderTouchHits { help: Some(HelpOverlayHit::ScrollDown), ..no_hits() };
    let r = app.reader_handle_touch_event(&PlatformInputEvent::TouchDown { x: 5, y: 5 }, &hits);
    assert!(r.handled);
    assert_eq!(r.help_focus, Some(HelpOverlayHit::ScrollDown));
    match &app.book_reader.overlay {
        Some(ReaderOverlay::Help(d)) => assert_eq!(d.scroll_line, 3),
        _ => panic!("the help dialog closed"),
    }
    let done = ReaderTouchHits { help: Some(HelpOverlayHit::Done), ..no_hits() };
    app.reader_handle_touch_event(&PlatformInputEvent::TouchUp { x: 5, y: 5 }, &done);
    assert!(app.book_reader.overlay.is_none());
}

#[test]
fn about_ok_closes_the_about_dialog_when_released_on_it() {
    let mut app = Application::new();
    app.home_about_open = true;
    app.dirty = false;
    let ok = ModalTouch { widget: Some(ABOUT_OK_ID), changed: true, activated: ModalFormAction::Activate(ABOUT_OK_ID) };
    let hits = StartMenuTouchHits { about: Some(ok), ..start_hits() };
    let r = app.start_menu_handle_touch_event(&PlatformInputEvent::TouchDown { x: 1, y: 1 }, &[], &hits);
    assert!(r.handled);
    assert!(app.dirty);
    assert_eq!(app.home_touch_pressed_about, Some(ABOUT_OK_ID));
    app.start_menu_handle_touch_event(&PlatformInputEvent::TouchUp { x: 1, y: 1 }, &[], &hits);
    assert!(!app.home_about_open);
    assert_eq!(app.home_touch_pressed_about, None);
}

#[test]
fn record_detail_widget_is_activated_only_where_the_touch_went_down() {
    let mut app = Application::new();
    let a = ModalTouch { widget: Some(26), changed: false, activated: ModalFormAction::Closed };
    let b = ModalTouch { widget: Some(27), changed: false, activated: ModalFormAction::Activate(27) };
    let down = StartMenuTouchHits { record_detail: Some(Some(a)), ..start_hits() };
    let up = StartMenuTouchHits { record_detail: Some(Some(b)), ..start_hits() };
    app.start_menu_handle_touch_event(&PlatformInputEvent::TouchDown { x: 1, y: 1 }, &[], &down);
    let r = app.start_menu_handle_touch_event(&PlatformInputEvent::TouchUp { x: 1, y: 1 }, &[], &up);
    assert!(r.handled);
    assert!(r.record_detail_action.is_none());
    app.start_menu_handle_touch_event(&PlatformInputEvent::TouchDown { x: 1, y: 1 }, &[], &down);
    let r = app.start_menu_handle_touch_event(&PlatformInputEvent::TouchUp { x: 1, y: 1 }, &[], &down);
    assert_eq!(r.record_detail_action, Some(ModalFormAction::Closed));
}

fn prc_hits() -> PrcTouchHits {
    PrcTouchHits {
        session: true,
        pane: Some(PrcPaneLayout { content_top: 39, scale: 2, pane_x: 80, pane_y: 39, pane_w: 320, pane_h: 320 }),
        status: None,
        help_shown: false,
        help: None,
        help_scroll_step: 2,
        menu_active: false,
        screen_height: 800,
        soft_menu: false,
        form_hit: None,
    }
}

#[test]
fn prc_home_tap_leaves_the_application() {
    let mut app = Application::new();
    let hits = PrcTouchHits { status: Some(PrcStatusBarFocus::Home), ..prc_hits() };
    let r = app.prc_handle_touch_event(&PlatformInputEvent::TouchDown { x: 3, y: 3 }, &hits);
    assert!(r.handled);
    assert_eq!(app.prc_touch_pressed_status, Some(PrcStatusBarFocus::Home));
    let r = app.prc_handle_touch_event(&PlatformInputEvent::TouchUp { x: 3, y: 3 }, &hits);
    assert_eq!(r.action, PrcTouchAction::Exit);
    assert_eq!(app.prc_touch_pressed_status, None);
}

#[test]
fn prc_touch_on_a_table_sends_a_pen_down_in_palm_coordinates() {
    let mut app = Application::new();
    app.dirty = false;
    let hits = PrcTouchHits { form_hit: Some((1200, FormControlKind::Table)), ..prc_hits() };
    let r = app.prc_handle_touch_event(&PlatformInputEvent::TouchDown { x: 100, y: 59 }, &hits);
    assert!(r.handled);
    assert_eq!(r.action, PrcTouchAction::TablePenDown(1200, 10, 10));
    assert!(app.dirty);
    let control = PrcTouchHits { form_hit: Some((7, FormControlKind::Control)), ..prc_hits() };
    let r = app.prc_handle_touch_event(&PlatformInputEvent::TouchUp { x: 100, y: 59 }, &control);
    assert!(!r.handled);
    assert_eq!(r.action, PrcTouchAction::ControlSelect(7));
    let r = app.prc_handle_touch_event(&PlatformInputEvent::TouchDown { x: 10, y: 59 }, &control);
    assert!(!r.handled);
    assert_eq!(r.action, PrcTouchAction::Nothing);
}

#[test]
fn prc_help_scroll_and_soft_menu() {
    let mut app = Application::new();
    let help = PrcTouchHits { help_shown: true, help: Some(HelpOverlayHit::ScrollUp), ..prc_hits() };
    let r = app.prc_handle_touch_event(&PlatformInputEvent::TouchDown { x: 100, y: 100 }, &help);
    assert_eq!(r.action, PrcTouchAction::ScrollHelp(-2));
    let soft = PrcTouchHits { soft_menu: true, ..prc_hits() };
    let r = app.prc_handle_touch_event(&PlatformInputEvent::TouchDown { x: 100, y: 700 }, &soft);
    assert_eq!(r.action, PrcTouchAction::OpenMenu);
    let r = app.prc_handle_touch_event(&PlatformInputEvent::TouchMove { x: 100, y: 700 }, &soft);
    assert!(!r.handled);
}
