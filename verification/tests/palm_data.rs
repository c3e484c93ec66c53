use lib::palm::bitmap::{parse_prc_bitmaps, parse_prc_bitmaps_from_resource_blobs, KIND_TAIB, KIND_TBMP};
use lib::palm::menu_preview::{parse_menu_bar_preview, KIND_MENU};
use lib::palm::prc::{parse_prc, PrcResource, PRC_ENTRY_LEN, PRC_HEADER_LEN};
use lib::palm::runtime::ResourceBlob;
use lib::palm::shell::pane_layout;
use lib::palm::text::{ascii_string, bytes_eq, contains_bytes, ends_with, push_decimal, push_decimal_usize, to_lower, trim_spaces};
use lib::palm::trap_stub::is_prc_runtime_trap_handled;

/// A resource database holding `resources` (type, id, data) in order.
fn build_prc(resources: &[(&[u8; 4], u16, Vec<u8>)]) -> Vec<u8> {
    let mut raw = vec![0u8; PRC_HEADER_LEN];
    raw[76] = (resources.len() >> 8) as u8;
    raw[77] = resources.len() as u8;
    let mut offset = PRC_HEADER_LEN + PRC_ENTRY_LEN * resources.len();
    for (kind, id, data) in resources {
        raw.extend_from_slice(&kind[..]);
        raw.extend_from_slice(&id.to_be_bytes());
        raw.extend_from_slice(&(offset as u32).to_be_bytes());
        offset += data.len();
    }
    for (_, _, data) in resources {
        raw.extend_from_slice(data);
    }
    raw
}

/// A bitmap header: width, height, row bytes, flags, 1 bit per pixel, version.
fn bitmap_header(width: u16, height: u16, row_bytes: u16, flags: u16, version: u8, compression: u8) -> Vec<u8> {
    let mut h = Vec::new();
    h.extend_from_slice(&width.to_be_bytes());
    h.extend_from_slice(&height.to_be_bytes());
    h.extend_from_slice(&row_bytes.to_be_bytes());
    h.extend_from_slice(&flags.to_be_bytes());
    h.push(1);
    h.push(version);
    h.extend_from_slice(&[0, 0, 0, compression, 0, 0]);
    h
}

#[test]
fn prc_map_lists_resources_with_sizes() {
    let raw = build_prc(&[(b"code", 1, vec![1, 2, 3]), (b"Tbmp", 1000, vec![9; 5])]);
    let info = parse_prc(&raw).expect("well-formed");
    assert_eq!(info.resources.len(), 2);
    assert_eq!(info.resources[0], PrcResource { kind: 0x636F_6465, id: 1, offset: 98, size: 3 });
    assert_eq!(info.resources[1], PrcResource { kind: KIND_TBMP, id: 1000, offset: 101, size: 5 });
}

#[test]
fn prc_too_short_is_refused() {
    assert!(parse_prc(&[0u8; 77]).is_none());
    let mut raw = vec![0u8; PRC_HEADER_LEN];
    raw[77] = 1;
    assert!(parse_prc(&raw).is_none());
    let empty = vec![0u8; PRC_HEADER_LEN];
    assert_eq!(parse_prc(&empty).expect("no resources").resources.len(), 0);
}

#[test]
fn prc_entry_before_its_predecessor_has_no_size() {
    let mut raw = build_prc(&[(b"code", 1, vec![1, 2, 3]), (b"code", 2, vec![4])]);
    // Point the second entry before the first one's data.
    let second = PRC_HEADER_LEN + PRC_ENTRY_LEN + 6;
    raw[second..second + 4].copy_from_slice(&50u32.to_be_bytes());
    let info = parse_prc(&raw).expect("well-formed");
    assert_eq!(info.resources[0].size, 0);
    assert_eq!(info.resources[1].offset, 50);
    assert_eq!(info.resources[1].size, raw.len() as u32 - 50);
}

#[test]
fn uncompressed_bitmap_is_copied() {
    let mut data = bitmap_header(8, 2, 2, 0, 0, 0);
    data.extend_from_slice(&[0xA1, 0xB2, 0xC3, 0xD4, 0xEE]);
    let out = parse_prc_bitmaps_from_resource_blobs(&[ResourceBlob { kind: KIND_TBMP, id: 7, data }]);
    assert_eq!(out.len(), 1);
    assert_eq!(out[0].resource_id, 7);
    assert_eq!((out[0].width, out[0].height, out[0].row_bytes), (8, 2, 2));
    assert_eq!(out[0].bits, vec![0xA1, 0xB2, 0xC3, 0xD4]);
}

#[test]
fn rle_bitmap_is_expanded() {
    let mut data = bitmap_header(16, 2, 2, 0x8000, 2, 1);
    data.extend_from_slice(&[0, 0, 3, 0xAA, 9, 0x55]);
    let out = parse_prc_bitmaps_from_resource_blobs(&[ResourceBlob { kind: KIND_TAIB, id: 1, data }]);
    assert_eq!(out.len(), 1);
    assert_eq!(out[0].bits, vec![0xAA, 0xAA, 0xAA, 0x55]);
}

#[test]
fn packbits_bitmap_is_expanded() {
    let mut data = bitmap_header(16, 2, 2, 0x8000, 2, 2);
    data.extend_from_slice(&[0, 0, 0xFE, 0x11, 0x80, 0x00, 0x22]);
    let out = parse_prc_bitmaps_from_resource_blobs(&[ResourceBlob { kind: KIND_TBMP, id: 1, data }]);
    assert_eq!(out.len(), 1);
    assert_eq!(out[0].bits, vec![0x11, 0x11, 0x11, 0x22]);
}

#[test]
fn scanline_bitmap_repeats_unchanged_bytes() {
    let mut data = bitmap_header(16, 2, 2, 0x8000, 1, 0);
    data.extend_from_slice(&[0, 0, 0xFF, 0x12, 0x34, 0x80, 0x56]);
    let out = parse_prc_bitmaps_from_resource_blobs(&[ResourceBlob { kind: KIND_TBMP, id: 1, data }]);
    assert_eq!(out.len(), 1);
    assert_eq!(out[0].bits, vec![0x12, 0x34, 0x56, 0x34]);
}

#[test]
fn truncated_compressed_bitmap_is_skipped() {
    let mut data = bitmap_header(16, 2, 2, 0x8000, 2, 1);
    data.extend_from_slice(&[0, 0, 1, 0xAA]);
    let out = parse_prc_bitmaps_from_resource_blobs(&[ResourceBlob { kind: KIND_TBMP, id: 1, data }]);
    assert!(out.is_empty());
}

#[test]
fn bitmaps_that_are_not_one_bit_or_empty_are_skipped() {
    let mut deep = bitmap_header(8, 1, 1, 0, 0, 0);
    deep[8] = 2;
    deep.push(0);
    let mut empty = bitmap_header(0, 1, 1, 0, 0, 0);
    empty.push(0);
    let short = vec![0u8; 15];
    let mut other = bitmap_header(8, 1, 1, 0, 0, 0);
    other.push(0xFF);
    let out = parse_prc_bitmaps_from_resource_blobs(&[
        ResourceBlob { kind: KIND_TBMP, id: 1, data: deep },
        ResourceBlob { kind: KIND_TBMP, id: 2, data: empty },
        ResourceBlob { kind: KIND_TBMP, id: 3, data: short },
        ResourceBlob { kind: 0x636F_6465, id: 4, data: other },
    ]);
    assert!(out.is_empty());
}

#[test]
fn bitmaps_are_found_in_a_database() {
    let mut bmp = bitmap_header(8, 1, 1, 0, 0, 0);
    bmp.push(0x3C);
    let raw = build_prc(&[(b"code", 0, vec![0; 4]), (b"Tbmp", 1200, bmp)]);
    let out = parse_prc_bitmaps(&raw);
    assert_eq!(out.len(), 1);
    assert_eq!(out[0].resource_id, 1200);
    assert_eq!(out[0].bits, vec![0x3C]);
    assert!(parse_prc_bitmaps(&[0u8; 10]).is_empty());
}

#[test]
fn menu_bar_from_a_menu_resource() {
    let menu = b"\0File\0Open\0Quit\0".to_vec();
    let raw = build_prc(&[(b"MENU", 2000, menu)]);
    let bar = parse_menu_bar_preview(&raw).expect("a menu");
    assert_eq!(bar.resource_id, 0);
    assert_eq!(bar.menus.len(), 1);
    let m = &bar.menus[0];
    assert_eq!(m.resource_id, 2000);
    assert_eq!(m.title, "File");
    assert_eq!(m.items.len(), 2);
    assert_eq!(m.items[0].text, "Open");
    assert_eq!(m.items[0].id, 0x696C);
    assert_eq!(m.items[0].shortcut, Some('O'));
    assert_eq!(m.items[1].text, "Quit");
    assert_eq!(m.items[1].id, 0x6500);
    assert_eq!(m.items[1].shortcut, Some('Q'));
}

#[test]
fn menu_items_without_ids_are_numbered_from_the_resource() {
    let menu = b"\0\0Edit\0Copy\0\0".to_vec();
    let raw = build_prc(&[(b"MENU", 5, menu)]);
    let bar = parse_menu_bar_preview(&raw).expect("a menu");
    let m = &bar.menus[0];
    assert_eq!(m.title, "Edit");
    assert_eq!(m.items.len(), 1);
    assert_eq!(m.items[0].text, "Copy");
    assert_eq!(m.items[0].id, 0x4564);
}

#[test]
fn menus_are_listed_in_id_order_without_a_menu_bar() {
    let raw = build_prc(&[(b"MENU", 20, b"\0Zeta\0Go\0".to_vec()), (b"MENU", 10, b"\0Alpha\0Run\0".to_vec())]);
    let bar = parse_menu_bar_preview(&raw).expect("menus");
    assert_eq!(bar.menus.len(), 2);
    assert_eq!(bar.menus[0].resource_id, 10);
    assert_eq!(bar.menus[0].title, "Alpha");
    assert_eq!(bar.menus[1].resource_id, 20);
    assert_eq!(bar.menus[1].title, "Zeta");
}

#[test]
fn menu_bar_picks_the_menus_it_names() {
    let mbar = vec![0x00, 0x14];
    let raw = build_prc(&[
        (b"MBAR", 1, mbar),
        (b"MENU", 10, b"\0Alpha\0Run\0".to_vec()),
        (b"MENU", 20, b"\0Zeta\0Go\0".to_vec()),
    ]);
    let bar = parse_menu_bar_preview(&raw).expect("menus");
    assert_eq!(bar.resource_id, 1);
    assert_eq!(bar.menus.len(), 1);
    assert_eq!(bar.menus[0].resource_id, 20);
}

#[test]
fn no_menus_gives_nothing() {
    let raw = build_prc(&[(b"code", 1, vec![0; 4])]);
    assert!(parse_menu_bar_preview(&raw).is_none());
    assert!(parse_menu_bar_preview(&[0u8; 4]).is_none());
    assert_eq!(KIND_MENU, 0x4D45_4E55);
}

#[test]
fn trap_range_is_the_a_line() {
    assert!(!is_prc_runtime_trap_handled(0x9FFF));
    assert!(is_prc_runtime_trap_handled(0xA000));
    assert!(is_prc_runtime_trap_handled(0xA0C7));
    assert!(is_prc_runtime_trap_handled(0xAFFF));
    assert!(!is_prc_runtime_trap_handled(0xB000));
}

#[test]
fn pane_layout_scales_to_the_screen() {
    let p = pane_layout(480, 800);
    assert_eq!((p.content_top, p.scale, p.pane_x, p.pane_y, p.pane_w, p.pane_h), (39, 3, 0, 39, 480, 480));
    let p = pane_layout(800, 480);
    assert_eq!((p.scale, p.pane_x, p.pane_w), (2, 240, 320));
    let p = pane_layout(100, 100);
    assert_eq!((p.scale, p.pane_x, p.pane_w), (1, 0, 160));
    let p = pane_layout(-500, 10);
    assert_eq!((p.scale, p.pane_x), (1, 0));
}

#[test]
fn text_helpers() {
    assert_eq!(trim_spaces(b"  ab c "), b"ab c".to_vec());
    assert_eq!(trim_spaces(b"   "), Vec::<u8>::new());
    assert_eq!(to_lower(b"AbC-1"), b"abc-1".to_vec());
    assert!(bytes_eq(b"abc", b"abc"));
    assert!(!bytes_eq(b"abc", b"abd"));
    assert!(ends_with(b"filename", b"name"));
    assert!(!ends_with(b"me", b"name"));
    assert!(contains_bytes(&vec![b"x".to_vec(), b"yz".to_vec()], b"yz"));
    assert!(!contains_bytes(&vec![b"x".to_vec()], b"y"));
    assert_eq!(ascii_string(b"Hi!"), "Hi!");
    let mut out = b"n=".to_vec();
    push_decimal(&mut out, 65535);
    assert_eq!(out, b"n=65535".to_vec());
    let mut out = Vec::new();
    push_decimal(&mut out, 0);
    assert_eq!(out, b"0".to_vec());
    let mut out = Vec::new();
    push_decimal_usize(&mut out, 1200);
    assert_eq!(out, b"1200".to_vec());
}

#[test]
fn pane_layout_on_the_narrowest_width() {
    let p = pane_layout(i32::MIN + 160, 10);
    assert_eq!((p.scale, p.pane_x, p.pane_w), (1, 0, 160));
}
