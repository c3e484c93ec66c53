//! The launcher's menu bar and the ids of its Records and About forms.
use vstd::prelude::*;
use crate::palm::menu_preview::{MenuBarPreview, MenuBarSpec, MenuItemPreview, MenuItemSpec, MenuPullDownPreview, MenuSpec};
use crate::ui::ObjectId;

verus! {

pub const HOME_MENU_SETTINGS: u16 = 1;
pub const HOME_MENU_HELP: u16 = 2;
pub const HOME_CMD_RECORDS: u16 = 1000;
pub const HOME_CMD_ABOUT: u16 = 1001;
pub const ABOUT_OK_ID: ObjectId = 3;
pub const RECORDS_TABLE_ID: ObjectId = 11;
pub const RECORD_DETAIL_OK_ID: ObjectId = 26;
pub const RECORD_DETAIL_DELETE_ID: ObjectId = 27;

#[derive(Clone, Copy, Debug, Eq, PartialEq, Structural)]
pub enum HomeMenuCommand {
    Records,
    About,
}

/// The launcher's menu bar: Settings > Records and Help > About.
pub open spec fn home_menu_bar_spec() -> MenuBarSpec {
    MenuBarSpec {
        resource_id: 1,
        menus: seq![
            MenuSpec {
                resource_id: HOME_MENU_SETTINGS,
                title: "Settings"@,
                items: seq![MenuItemSpec { id: HOME_CMD_RECORDS, text: "Records"@, shortcut: None }],
            },
            MenuSpec {
                resource_id: HOME_MENU_HELP,
                title: "Help"@,
                items: seq![MenuItemSpec { id: HOME_CMD_ABOUT, text: "About"@, shortcut: None }],
            },
        ],
    }
}

pub fn home_menu_bar() -> (m: MenuBarPreview)
    ensures
        m@ == home_menu_bar_spec(),
{
    let mut records_items: Vec<MenuItemPreview> = Vec::new();
    records_items.push(MenuItemPreview { id: HOME_CMD_RECORDS, text: "Records".to_owned(), shortcut: None });
    let mut help_items: Vec<MenuItemPreview> = Vec::new();
    help_items.push(MenuItemPreview { id: HOME_CMD_ABOUT, text: "About".to_owned(), shortcut: None });
    let mut menus: Vec<MenuPullDownPreview> = Vec::new();
    menus.push(MenuPullDownPreview { resource_id: HOME_MENU_SETTINGS, title: "Settings".to_owned(), items: records_items });
    menus.push(MenuPullDownPreview { resource_id: HOME_MENU_HELP, title: "Help".to_owned(), items: help_items });
    let m = MenuBarPreview { resource_id: 1, menus };
    assert(m@.menus[0].items =~= home_menu_bar_spec().menus[0].items);
    assert(m@.menus[1].items =~= home_menu_bar_spec().menus[1].items);
    assert(m@.menus =~= home_menu_bar_spec().menus);
    m
}

pub open spec fn home_menu_command_spec(item_id: u16) -> Option<HomeMenuCommand> {
    if item_id == HOME_CMD_RECORDS {
        Some(HomeMenuCommand::Records)
    } else if item_id == HOME_CMD_ABOUT {
        Some(HomeMenuCommand::About)
    } else {
        None
    }
}

/// The command of a launcher menu item.
pub fn home_menu_command(item_id: u16) -> (c: Option<HomeMenuCommand>)
    ensures
        c == home_menu_command_spec(item_id),
{
    match item_id {
        HOME_CMD_RECORDS => Some(HomeMenuCommand::Records),
        HOME_CMD_ABOUT => Some(HomeMenuCommand::About),
        _ => None,
    }
}

/// Every item of the launcher's menu bar maps to a command.
pub proof fn lemma_home_menu_items_have_commands(m: int, i: int)
    requires
        0 <= m < home_menu_bar_spec().menus.len(),
        0 <= i < home_menu_bar_spec().menus[m].items.len(),
    ensures
        home_menu_command_spec(home_menu_bar_spec().menus[m].items[i].id) is Some,
{
}

pub fn about_ok_id() -> (id: ObjectId)
    ensures
        id == ABOUT_OK_ID,
{
    ABOUT_OK_ID
}

pub fn records_table_id() -> (id: ObjectId)
    ensures
        id == RECORDS_TABLE_ID,
{
    RECORDS_TABLE_ID
}

pub fn record_detail_ok_id() -> (id: ObjectId)
    ensures
        id == RECORD_DETAIL_OK_ID,
{
    RECORD_DETAIL_OK_ID
}

pub fn record_detail_delete_id() -> (id: ObjectId)
    ensures
        id == RECORD_DETAIL_DELETE_ID,
{
    RECORD_DETAIL_DELETE_ID
}

} // verus!
