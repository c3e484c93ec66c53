use lib::app::book_reader::{map_display_point, toc_table_rect};
use lib::app::home::thumbnail::{adjust_thumbnail_luma, thumbnail_from_image, thumbnail_to_mono};
use lib::app::home::{is_launcher_image_name, HomeState, LauncherCategory, RecentPreview};
use lib::framebuffer::Rotation;
use lib::image_viewer::ImageData;
use lib::input::{ButtonState, Buttons};
use lib::ui::Rect;

fn mono(image: Option<ImageData>) -> (u32, u32, Vec<u8>) {
    match image {
        Some(ImageData::Mono1 { width, height, bits }) => (width, height, bits),
        _ => panic!("expected a one-bit picture"),
    }
}

#[test]
fn contrast_is_raised_around_the_middle() {
    assert_eq!(adjust_thumbnail_luma(0), 0);
    assert_eq!(adjust_thumbnail_luma(255), 255);
    assert_eq!(adjust_thumbnail_luma(128), 128);
    assert_eq!(adjust_thumbnail_luma(100), 92);
    assert_eq!(adjust_thumbnail_luma(200), 221);
    assert_eq!(adjust_thumbnail_luma(140), 143);
    assert_eq!(adjust_thumbnail_luma(20), 0);
}

#[test]
fn grey_picture_to_one_bit() {
    let img = ImageData::Gray8 { width: 2, height: 2, pixels: vec![0, 255, 100, 200] };
    assert_eq!(mono(thumbnail_to_mono(&img)), (2, 2, vec![0x5F]));
    let short = ImageData::Gray8 { width: 2, height: 1, pixels: vec![0] };
    assert_eq!(mono(thumbnail_to_mono(&short)), (2, 1, vec![0x7F]));
}

#[test]
fn two_bit_picture_to_one_bit() {
    let img = ImageData::Gray2 { width: 4, height: 2, data: vec![0xC0, 0x50, 0x30] };
    assert_eq!(mono(thumbnail_to_mono(&img)), (4, 2, vec![0xE0]));
    let short = ImageData::Gray2 { width: 4, height: 2, data: vec![0xC0, 0x50] };
    assert!(thumbnail_to_mono(&short).is_none());
}

#[test]
fn one_bit_and_stored_pictures_to_one_bit() {
    let img = ImageData::Mono1 { width: 3, height: 1, bits: vec![0xA5] };
    assert_eq!(mono(thumbnail_to_mono(&img)), (3, 1, vec![0xA5]));
    let stored = ImageData::Gray2Stream { width: 3, height: 3, key: "k".to_string() };
    assert!(thumbnail_to_mono(&stored).is_none());
}

#[test]
fn same_size_thumbnail_of_one_bit_picture_copies_it() {
    let img = ImageData::Mono1 { width: 2, height: 2, bits: vec![0b1001_0000] };
    assert_eq!(mono(thumbnail_from_image(&img, 2)), (2, 2, vec![0x9F]));
}

#[test]
fn thumbnail_samples_every_other_pixel() {
    let mut pixels = vec![0u8; 16];
    pixels[2] = 255;
    pixels[10] = 200;
    let img = ImageData::Gray8 { width: 4, height: 4, pixels };
    assert_eq!(mono(thumbnail_from_image(&img, 2)), (2, 2, vec![0x5F]));
}

#[test]
fn thumbnail_edge_cases() {
    let empty = ImageData::Gray8 { width: 0, height: 4, pixels: vec![] };
    assert!(thumbnail_from_image(&empty, 4).is_none());
    let img = ImageData::Gray8 { width: 4, height: 4, pixels: vec![0; 16] };
    assert_eq!(mono(thumbnail_from_image(&img, 0)), (0, 0, vec![]));
    let stored = ImageData::Gray2Stream { width: 8, height: 8, key: "k".to_string() };
    assert_eq!(mono(thumbnail_from_image(&stored, 2)), (2, 2, vec![0xFF]));
    let grey2 = ImageData::Gray2 { width: 4, height: 2, data: vec![0xC0, 0x50, 0x30] };
    // 4x2 sampled at 2x2: source pixels 0, 2, 4, 6 -> white, white, black, black.
    assert_eq!(mono(thumbnail_from_image(&grey2, 2)), (2, 2, vec![0xCF]));
}

#[test]
fn display_points_map_to_the_frame_buffer() {
    assert_eq!(map_display_point(Rotation::Rotate0, 10, 20), Some((10, 20)));
    assert_eq!(map_display_point(Rotation::Rotate0, 800, 0), None);
    assert_eq!(map_display_point(Rotation::Rotate0, -1, 0), None);
    assert_eq!(map_display_point(Rotation::Rotate90, 10, 20), Some((20, 469)));
    assert_eq!(map_display_point(Rotation::Rotate90, 480, 0), None);
    assert_eq!(map_display_point(Rotation::Rotate180, 0, 0), Some((799, 479)));
    assert_eq!(map_display_point(Rotation::Rotate180, 799, 479), Some((0, 0)));
    assert_eq!(map_display_point(Rotation::Rotate270, 10, 20), Some((779, 10)));
    assert_eq!(map_display_point(Rotation::Rotate270, 500, 0), None);
}

#[test]
fn contents_list_sits_inside_its_dialog() {
    let modal = Rect { x: 30, y: 44, w: 420, h: 620 };
    let cancel = Rect { x: 360, y: 624, w: 74, h: 24 };
    assert_eq!(toc_table_rect(modal, cancel), Rect { x: 44, y: 88, w: 380, h: 522 });
}

#[test]
fn launcher_table_layout_leaves_room_for_the_scroll_bar() {
    let (table, bar) = HomeState::launcher_table_layout(LauncherCategory::Apps, 480, 800);
    assert_eq!(table, Rect { x: 12, y: 82, w: 444, h: 698 });
    assert_eq!(bar, Some(Rect { x: 457, y: 86, w: 11, h: 690 }));
    let (table, bar) = HomeState::launcher_table_layout(LauncherCategory::Recents, 480, 800);
    assert_eq!(table, Rect { x: 12, y: 82, w: 456, h: 698 });
    assert_eq!(bar, None);
}

#[test]
fn clamp_keeps_the_books_from_scrolling_past_the_end() {
    let mut home = HomeState::new();
    home.books_cache = (0..10)
        .map(|i| RecentPreview { path: format!("b{}", i), title: format!("b{}", i), image: None })
        .collect();
    home.books_top_row = 9;
    home.clamp_launcher_top_row_for_category(&[], LauncherCategory::Books);
    assert_eq!(home.books_top_row, 7);
    home.books_top_row = 2;
    home.clamp_launcher_top_row_for_category(&[], LauncherCategory::Books);
    assert_eq!(home.books_top_row, 2);
}

#[test]
fn focused_and_previous_entries() {
    let list = vec!["a".to_string(), "b".to_string()];
    let mut home = HomeState::new();
    assert_eq!(home.selected_content_index(&list), None);
    home.handle_start_menu_input(&list, &ButtonState::only(Buttons::Down));
    assert_eq!(home.selected_content_index(&list), Some(1));
    assert_eq!(home.previous_content_index(&list), Some(0));
    assert_eq!(home.selected_content_index(&list[..1]), None);
}

#[test]
fn picture_names_the_launcher_lists() {
    assert!(is_launcher_image_name("Photo.JPG"));
    assert!(is_launcher_image_name("scan.Jpeg"));
    assert!(is_launcher_image_name("cover.trimg"));
    assert!(is_launcher_image_name("a.tri"));
    assert!(is_launcher_image_name("x.png"));
    assert!(!is_launcher_image_name("book.trbk"));
    assert!(!is_launcher_image_name("png"));
}
