use lib::app::home::{HomeAction, HomeState, InstallSummary, LauncherCategory, RecentPreview, StartMenuSection};
use lib::app::settings::{
    about_ok_id, home_menu_bar, home_menu_command, record_detail_delete_id, record_detail_ok_id, records_table_id,
    HomeMenuCommand,
};
use lib::image_viewer::InstalledAppEntry;
use lib::input::{ButtonState, Buttons, PlatformInputEvent};
use lib::ui::TableScrollBarHit;

fn recents(names: &[&str]) -> Vec<String> {
    names.iter().map(|s| s.to_string()).collect()
}

fn preview(path: &str) -> RecentPreview {
    RecentPreview { path: path.to_string(), title: path.to_string(), image: None }
}

fn app(path: &str) -> InstalledAppEntry {
    InstalledAppEntry { title: path.to_string(), path: path.to_string(), icon: None }
}

fn press(home: &mut HomeState, list: &[String], b: Buttons) -> HomeAction {
    home.handle_start_menu_input(list, &ButtonState::only(b))
}

fn opened(a: HomeAction) -> Option<String> {
    match a {
        HomeAction::OpenRecent(p) => Some(p),
        HomeAction::Nothing => None,
    }
}

#[test]
fn down_then_confirm_opens_the_second_recent_item() {
    let list = recents(&["a.trbk", "b.trbk"]);
    let mut home = HomeState::new();
    assert!(opened(press(&mut home, &list, Buttons::Down)).is_none());
    assert_eq!(home.start_menu_index, 1);
    assert!(home.start_menu_nav_pending);
    assert_eq!(home.ui_runtime.focus.object_id, Some(1001));
    assert_eq!(opened(press(&mut home, &list, Buttons::Confirm)), Some("b.trbk".to_string()));
}

#[test]
fn down_stops_at_the_last_item() {
    let list = recents(&["a", "b"]);
    let mut home = HomeState::new();
    press(&mut home, &list, Buttons::Down);
    press(&mut home, &list, Buttons::Down);
    assert_eq!(home.start_menu_index, 1);
}

#[test]
fn up_from_the_first_item_focuses_the_category_trigger() {
    let list = recents(&["a"]);
    let mut home = HomeState::new();
    press(&mut home, &list, Buttons::Up);
    assert_eq!(home.start_menu_section, StartMenuSection::Actions);
    assert_eq!(home.ui_runtime.focus.object_id, Some(100));
    press(&mut home, &list, Buttons::Down);
    assert_eq!(home.start_menu_section, StartMenuSection::Recents);
    assert_eq!(home.start_menu_index, 0);
}

#[test]
fn category_menu_switches_to_apps() {
    let list = recents(&["a"]);
    let mut home = HomeState::new();
    press(&mut home, &list, Buttons::Up);
    press(&mut home, &list, Buttons::Confirm);
    assert!(home.category_menu_open);
    assert_eq!(home.category_menu_index, 0);
    assert_eq!(home.ui_runtime.focus.object_id, Some(2000));
    press(&mut home, &list, Buttons::Down);
    assert_eq!(home.category_menu_index, 1);
    press(&mut home, &list, Buttons::Confirm);
    assert!(!home.category_menu_open);
    assert_eq!(home.launcher_category, LauncherCategory::Apps);
    assert!(home.start_menu_need_base_refresh);
}

#[test]
fn category_menu_closes_on_back() {
    let list = recents(&["a"]);
    let mut home = HomeState::new();
    press(&mut home, &list, Buttons::Up);
    press(&mut home, &list, Buttons::Confirm);
    press(&mut home, &list, Buttons::Back);
    assert!(!home.category_menu_open);
    assert_eq!(home.launcher_category, LauncherCategory::Recents);
    assert_eq!(home.ui_runtime.focus.object_id, Some(100));
}

#[test]
fn apps_move_through_the_grid() {
    let list = recents(&[]);
    let mut home = HomeState::new();
    home.launcher_category = LauncherCategory::Apps;
    home.installed_apps = (0..7).map(|i| app(&format!("app{}.prc", i))).collect();
    press(&mut home, &list, Buttons::Right);
    assert_eq!(home.start_menu_index, 1);
    press(&mut home, &list, Buttons::Down);
    assert_eq!(home.start_menu_index, 4);
    press(&mut home, &list, Buttons::Left);
    assert_eq!(home.start_menu_index, 3);
    press(&mut home, &list, Buttons::Left);
    assert_eq!(home.start_menu_index, 3);
    assert_eq!(opened(press(&mut home, &list, Buttons::Confirm)), Some("app3.prc".to_string()));
}

#[test]
fn books_scroll_to_keep_the_selection_visible() {
    let list = recents(&[]);
    let mut home = HomeState::new();
    home.launcher_category = LauncherCategory::Books;
    home.books_cache = (0..10).map(|i| preview(&format!("book{}.trbk", i))).collect();
    let expected_tops = [0usize, 0, 1, 2, 3];
    for top in expected_tops {
        press(&mut home, &list, Buttons::Down);
        assert_eq!(home.books_top_row, top);
    }
    assert_eq!(home.start_menu_index, 5);
    assert_eq!(opened(press(&mut home, &list, Buttons::Confirm)), Some("book5.trbk".to_string()));
}

#[test]
fn install_summary_dialog_shows_counts_and_closes() {
    let list = recents(&["a"]);
    let mut home = HomeState::new();
    home.show_install_summary_dialog(InstallSummary { scanned: 3, installed: 1, upgraded: 0, skipped: 1, failed: 1 });
    let d = home.install_dialog.as_ref().expect("dialog");
    assert_eq!(d.title, "Install");
    assert_eq!(
        d.message,
        "Scanned 3 files.\nInstalled: 1\nUpgraded: 0\nSkipped: 1\nFailed: 1\n\nCheck logs for install errors."
    );
    press(&mut home, &list, Buttons::Down);
    assert!(home.install_dialog.is_some());
    press(&mut home, &list, Buttons::Back);
    assert!(home.install_dialog.is_none());
}

#[test]
fn install_summary_without_failures_has_no_hint() {
    let mut home = HomeState::new();
    home.show_install_summary_dialog(InstallSummary { scanned: 12, installed: 2, upgraded: 1, skipped: 9, failed: 0 });
    assert_eq!(
        home.install_dialog.as_ref().expect("dialog").message,
        "Scanned 12 files.\nInstalled: 2\nUpgraded: 1\nSkipped: 9\nFailed: 0"
    );
}

#[test]
fn tapping_the_trigger_and_a_category() {
    let list = recents(&["a"]);
    let mut home = HomeState::new();
    let a = home.handle_start_menu_touch(&list, &PlatformInputEvent::TouchDown { x: 710, y: 40 }, 800, 480, None, None);
    assert!(opened(a).is_none());
    assert!(home.category_menu_open);
    home.handle_start_menu_touch(&list, &PlatformInputEvent::TouchDown { x: 700, y: 79 }, 800, 480, None, None);
    assert!(!home.category_menu_open);
    assert_eq!(home.launcher_category, LauncherCategory::Books);
    assert_eq!(home.category_menu_index, 2);
}

#[test]
fn tapping_outside_the_category_menu_closes_it() {
    let list = recents(&["a"]);
    let mut home = HomeState::new();
    home.handle_start_menu_touch(&list, &PlatformInputEvent::TouchDown { x: 710, y: 40 }, 800, 480, None, None);
    home.handle_start_menu_touch(&list, &PlatformInputEvent::TouchDown { x: 10, y: 300 }, 800, 480, None, None);
    assert!(!home.category_menu_open);
    assert_eq!(home.launcher_category, LauncherCategory::Recents);
}

#[test]
fn tap_down_and_up_on_an_item_opens_it() {
    let list = recents(&["a", "b", "c"]);
    let mut home = HomeState::new();
    let down = PlatformInputEvent::TouchDown { x: 100, y: 200 };
    let up = PlatformInputEvent::TouchUp { x: 100, y: 200 };
    assert!(opened(home.handle_start_menu_touch(&list, &down, 800, 480, Some((1, 0)), None)).is_none());
    assert_eq!(home.start_menu_index, 1);
    assert_eq!(home.touch_pressed_index, Some(1));
    assert_eq!(opened(home.handle_start_menu_touch(&list, &up, 800, 480, Some((1, 0)), None)), Some("b".to_string()));
    assert_eq!(home.touch_pressed_index, None);
}

#[test]
fn tap_up_elsewhere_opens_nothing() {
    let list = recents(&["a", "b", "c"]);
    let mut home = HomeState::new();
    home.handle_start_menu_touch(&list, &PlatformInputEvent::TouchDown { x: 100, y: 200 }, 800, 480, Some((1, 0)), None);
    let a = home.handle_start_menu_touch(&list, &PlatformInputEvent::TouchUp { x: 100, y: 300 }, 800, 480, Some((2, 0)), None);
    assert!(opened(a).is_none());
    assert_eq!(home.start_menu_index, 2);
    assert_eq!(home.touch_pressed_index, None);
}

#[test]
fn scroll_bar_track_scrolls_the_books() {
    let list = recents(&[]);
    let mut home = HomeState::new();
    home.launcher_category = LauncherCategory::Books;
    home.books_cache = (0..10).map(|i| preview(&format!("book{}", i))).collect();
    let ev = PlatformInputEvent::TouchDown { x: 780, y: 300 };
    home.handle_start_menu_touch(&list, &ev, 800, 480, None, Some(TableScrollBarHit::Track { top_row: 5 }));
    assert_eq!(home.books_top_row, 5);
    assert_eq!(home.start_menu_index, 5);
    home.handle_start_menu_touch(&list, &ev, 800, 480, None, Some(TableScrollBarHit::Track { top_row: 50 }));
    assert_eq!(home.books_top_row, 7);
    home.handle_start_menu_touch(&list, &ev, 800, 480, None, Some(TableScrollBarHit::ArrowUp));
    assert_eq!(home.books_top_row, 6);
}

#[test]
fn touch_moves_and_dialogs_are_ignored() {
    let list = recents(&["a", "b"]);
    let mut home = HomeState::new();
    home.handle_start_menu_touch(&list, &PlatformInputEvent::TouchMove { x: 710, y: 40 }, 800, 480, None, None);
    assert!(!home.category_menu_open);
    home.show_install_summary_dialog(InstallSummary { scanned: 0, installed: 0, upgraded: 0, skipped: 0, failed: 0 });
    home.handle_start_menu_touch(&list, &PlatformInputEvent::TouchDown { x: 710, y: 40 }, 800, 480, None, None);
    assert!(!home.category_menu_open);
}

#[test]
fn cache_matches_recent_paths_in_order() {
    let mut home = HomeState::new();
    home.start_menu_cache = vec![preview("a"), preview("b")];
    assert!(home.start_menu_cache_same(&recents(&["a", "b"])));
    assert!(!home.start_menu_cache_same(&recents(&["b", "a"])));
    assert!(!home.start_menu_cache_same(&recents(&["a"])));
}

#[test]
fn launcher_menu_bar_and_commands() {
    let bar = home_menu_bar();
    assert_eq!(bar.resource_id, 1);
    assert_eq!(bar.menus.len(), 2);
    assert_eq!(bar.menus[0].title, "Settings");
    assert_eq!(bar.menus[0].items[0].text, "Records");
    assert_eq!(bar.menus[1].title, "Help");
    for m in &bar.menus {
        for item in &m.items {
            assert!(home_menu_command(item.id).is_some());
        }
    }
    assert_eq!(home_menu_command(1000), Some(HomeMenuCommand::Records));
    assert_eq!(home_menu_command(1001), Some(HomeMenuCommand::About));
    assert_eq!(home_menu_command(1002), None);
    assert_eq!((about_ok_id(), records_table_id(), record_detail_ok_id(), record_detail_delete_id()), (3, 11, 26, 27));
}
