//! The menus of the app, and the keys that go with them.

use vstd::prelude::*;

verus! {

/// What a menu item does.
#[derive(Debug, Clone, Copy, PartialEq, Eq, Structural)]
pub enum MenuAction {
    About,
    Quit,
    Hide,
    HideOthers,
    ShowAll,
    Minimize,
    Zoom,
    CloseWindow,
    Undo,
    Redo,
    Cut,
    Copy,
    Paste,
    SelectAll,
    AppearanceSystem,
    AppearanceLight,
    AppearanceDark,
}

/// One line of a menu.
#[derive(Debug, Clone, Copy)]
pub enum MenuItem {
    /// One that the app acts on.
    Action { label: &'static str, action: MenuAction },
    /// One that is shown and does nothing.
    Disabled { label: &'static str, action: MenuAction },
    /// One that the platform knows too.
    Platform { label: &'static str, action: MenuAction },
    /// The platform's own submenu of services.
    Services { label: &'static str },
    Separator,
}

/// A menu.
#[derive(Debug)]
pub struct Menu {
    pub title: &'static str,
    pub items: Vec<MenuItem>,
}

/// The app's own menu.
pub open spec fn app_items(mac: bool) -> Seq<MenuItem> {
    seq![
        MenuItem::Disabled { label: "About Keiki", action: MenuAction::About },
        MenuItem::Separator,
    ] + (if mac {
        seq![
            MenuItem::Services { label: "Services" },
            MenuItem::Separator,
            MenuItem::Action { label: "Hide Keiki", action: MenuAction::Hide },
            MenuItem::Action { label: "Hide Others", action: MenuAction::HideOthers },
            MenuItem::Action { label: "Show All", action: MenuAction::ShowAll },
            MenuItem::Separator,
        ]
    } else {
        Seq::empty()
    }) + seq![MenuItem::Action { label: "Quit Keiki", action: MenuAction::Quit }]
}

/// The menu of what is done to a text.
pub open spec fn edit_items() -> Seq<MenuItem> {
    seq![
        MenuItem::Action { label: "Undo", action: MenuAction::Undo },
        MenuItem::Action { label: "Redo", action: MenuAction::Redo },
        MenuItem::Separator,
        MenuItem::Platform { label: "Cut", action: MenuAction::Cut },
        MenuItem::Platform { label: "Copy", action: MenuAction::Copy },
        MenuItem::Platform { label: "Paste", action: MenuAction::Paste },
        MenuItem::Separator,
        MenuItem::Platform { label: "Select All", action: MenuAction::SelectAll },
    ]
}

/// The menu of the look.
pub open spec fn view_items() -> Seq<MenuItem> {
    seq![
        MenuItem::Action { label: "Appearance: System", action: MenuAction::AppearanceSystem },
        MenuItem::Action { label: "Appearance: Light", action: MenuAction::AppearanceLight },
        MenuItem::Action { label: "Appearance: Dark", action: MenuAction::AppearanceDark },
    ]
}

/// The menu of the window.
pub open spec fn window_items() -> Seq<MenuItem> {
    seq![
        MenuItem::Action { label: "Minimize", action: MenuAction::Minimize },
        MenuItem::Action { label: "Zoom", action: MenuAction::Zoom },
        MenuItem::Separator,
        MenuItem::Action { label: "Close Window", action: MenuAction::CloseWindow },
    ]
}

/// Whether a menu has a title and items.
pub open spec fn is_menu(menu: Menu, title: Seq<char>, items: Seq<MenuItem>) -> bool {
    menu.title@ == title && menu.items@ == items
}

/// The menus, in order. The window's own is there on a Mac alone.
pub fn app_menus(mac: bool) -> (menus: Vec<Menu>)
    ensures
        menus@.len() == if mac {
            4int
        } else {
            3int
        },
        is_menu(menus@[0], "Keiki"@, app_items(mac)),
        is_menu(menus@[1], "Edit"@, edit_items()),
        is_menu(menus@[2], "View"@, view_items()),
        mac ==> is_menu(menus@[3], "Window"@, window_items()),
{
    let mut app: Vec<MenuItem> = vec![
        MenuItem::Disabled { label: "About Keiki", action: MenuAction::About },
        MenuItem::Separator,
    ];
    if mac {
        app.push(MenuItem::Services { label: "Services" });
        app.push(MenuItem::Separator);
        app.push(MenuItem::Action { label: "Hide Keiki", action: MenuAction::Hide });
        app.push(MenuItem::Action { label: "Hide Others", action: MenuAction::HideOthers });
        app.push(MenuItem::Action { label: "Show All", action: MenuAction::ShowAll });
        app.push(MenuItem::Separator);
    }
    app.push(MenuItem::Action { label: "Quit Keiki", action: MenuAction::Quit });
    assert(app@ =~= app_items(mac));
    let edit: Vec<MenuItem> = vec![
        MenuItem::Action { label: "Undo", action: MenuAction::Undo },
        MenuItem::Action { label: "Redo", action: MenuAction::Redo },
        MenuItem::Separator,
        MenuItem::Platform { label: "Cut", action: MenuAction::Cut },
        MenuItem::Platform { label: "Copy", action: MenuAction::Copy },
        MenuItem::Platform { label: "Paste", action: MenuAction::Paste },
        MenuItem::Separator,
        MenuItem::Platform { label: "Select All", action: MenuAction::SelectAll },
    ];
    assert(edit@ =~= edit_items());
    let view: Vec<MenuItem> = vec![
        MenuItem::Action { label: "Appearance: System", action: MenuAction::AppearanceSystem },
        MenuItem::Action { label: "Appearance: Light", action: MenuAction::AppearanceLight },
        MenuItem::Action { label: "Appearance: Dark", action: MenuAction::AppearanceDark },
    ];
    assert(view@ =~= view_items());
    let mut menus: Vec<Menu> = Vec::new();
    menus.push(Menu { title: "Keiki", items: app });
    menus.push(Menu { title: "Edit", items: edit });
    menus.push(Menu { title: "View", items: view });
    if mac {
        let window: Vec<MenuItem> = vec![
            MenuItem::Action { label: "Minimize", action: MenuAction::Minimize },
            MenuItem::Action { label: "Zoom", action: MenuAction::Zoom },
            MenuItem::Separator,
            MenuItem::Action { label: "Close Window", action: MenuAction::CloseWindow },
        ];
        assert(window@ =~= window_items());
        menus.push(Menu { title: "Window", items: window });
    }
    menus
}

/// A key, and what it does.
#[derive(Debug, Clone, Copy)]
pub struct MenuKey {
    pub keys: &'static str,
    pub action: MenuAction,
}

/// The keys of the menus: only a Mac has them.
pub open spec fn keys_of(mac: bool) -> Seq<MenuKey> {
    if mac {
        seq![
            MenuKey { keys: "cmd-q", action: MenuAction::Quit },
            MenuKey { keys: "cmd-h", action: MenuAction::Hide },
            MenuKey { keys: "alt-cmd-h", action: MenuAction::HideOthers },
            MenuKey { keys: "cmd-m", action: MenuAction::Minimize },
            MenuKey { keys: "cmd-w", action: MenuAction::CloseWindow },
        ]
    } else {
        Seq::empty()
    }
}

/// The keys of the menus.
pub fn menu_keys(mac: bool) -> (keys: Vec<MenuKey>)
    ensures
        keys@ == keys_of(mac),
{
    let mut keys: Vec<MenuKey> = Vec::new();
    if mac {
        keys.push(MenuKey { keys: "cmd-q", action: MenuAction::Quit });
        keys.push(MenuKey { keys: "cmd-h", action: MenuAction::Hide });
        keys.push(MenuKey { keys: "alt-cmd-h", action: MenuAction::HideOthers });
        keys.push(MenuKey { keys: "cmd-m", action: MenuAction::Minimize });
        keys.push(MenuKey { keys: "cmd-w", action: MenuAction::CloseWindow });
    }
    assert(keys@ =~= keys_of(mac));
    keys
}

/// What a key does in a line of text.
#[derive(Debug, Clone, Copy, PartialEq, Eq, Structural)]
pub enum EditAction {
    Backspace,
    Delete,
    Left,
    Right,
    Home,
    End,
    SelectAll,
    Paste,
    Cut,
    Copy,
}

/// A key of a line of text, and what it does.
#[derive(Debug, Clone, Copy)]
pub struct EditKey {
    pub keys: &'static str,
    pub action: EditAction,
}

/// The keys of a line of text.
pub open spec fn edit_keys_of(mac: bool) -> Seq<EditKey> {
    seq![
        EditKey { keys: "backspace", action: EditAction::Backspace },
        EditKey { keys: "delete", action: EditAction::Delete },
        EditKey { keys: "left", action: EditAction::Left },
        EditKey { keys: "right", action: EditAction::Right },
        EditKey { keys: "home", action: EditAction::Home },
        EditKey { keys: "end", action: EditAction::End },
    ] + (if mac {
        seq![
            EditKey { keys: "cmd-a", action: EditAction::SelectAll },
            EditKey { keys: "cmd-v", action: EditAction::Paste },
            EditKey { keys: "cmd-x", action: EditAction::Cut },
            EditKey { keys: "cmd-c", action: EditAction::Copy },
        ]
    } else {
        seq![
            EditKey { keys: "ctrl-a", action: EditAction::SelectAll },
            EditKey { keys: "ctrl-v", action: EditAction::Paste },
            EditKey { keys: "ctrl-x", action: EditAction::Cut },
            EditKey { keys: "ctrl-c", action: EditAction::Copy },
        ]
    })
}

/// The keys of a line of text.
pub fn edit_keys(mac: bool) -> (keys: Vec<EditKey>)
    ensures
        keys@ == edit_keys_of(mac),
{
    let mut keys: Vec<EditKey> = vec![
        EditKey { keys: "backspace", action: EditAction::Backspace },
        EditKey { keys: "delete", action: EditAction::Delete },
        EditKey { keys: "left", action: EditAction::Left },
        EditKey { keys: "right", action: EditAction::Right },
        EditKey { keys: "home", action: EditAction::Home },
        EditKey { keys: "end", action: EditAction::End },
    ];
    if mac {
        keys.push(EditKey { keys: "cmd-a", action: EditAction::SelectAll });
        keys.push(EditKey { keys: "cmd-v", action: EditAction::Paste });
        keys.push(EditKey { keys: "cmd-x", action: EditAction::Cut });
        keys.push(EditKey { keys: "cmd-c", action: EditAction::Copy });
    } else {
        keys.push(EditKey { keys: "ctrl-a", action: EditAction::SelectAll });
        keys.push(EditKey { keys: "ctrl-v", action: EditAction::Paste });
        keys.push(EditKey { keys: "ctrl-x", action: EditAction::Cut });
        keys.push(EditKey { keys: "ctrl-c", action: EditAction::Copy });
    }
    assert(keys@ =~= edit_keys_of(mac));
    keys
}

/// Both platforms edit with the same keys, but that the one holds Command where
/// the other holds Control.
pub proof fn law_platforms_edit_alike(i: int)
    requires
        0 <= i < edit_keys_of(true).len(),
    ensures
        edit_keys_of(true).len() == edit_keys_of(false).len(),
        edit_keys_of(true)[i].action == edit_keys_of(false)[i].action,
        i < 6 ==> edit_keys_of(true)[i] == edit_keys_of(false)[i],
{
}

/// No key edits in two ways, and each edit has its key.
pub proof fn law_each_edit_has_its_key(mac: bool, i: int, j: int)
    requires
        0 <= i < j < edit_keys_of(mac).len(),
    ensures
        edit_keys_of(mac)[i].action != edit_keys_of(mac)[j].action,
        edit_keys_of(mac).len() == 10,
{
}

/// The keys that move and delete do what they are called.
pub proof fn law_editing_keys_do_what_they_are_called(mac: bool, key: EditKey)
    requires
        edit_keys_of(mac).contains(key),
    ensures
        key.action is Backspace ==> key.keys@ == "backspace"@,
        key.action is Delete ==> key.keys@ == "delete"@,
        key.action is Left ==> key.keys@ == "left"@,
        key.action is Right ==> key.keys@ == "right"@,
        key.action is Home ==> key.keys@ == "home"@,
        key.action is End ==> key.keys@ == "end"@,
        key.action is SelectAll ==> key.keys@ == (if mac {
            "cmd-a"@
        } else {
            "ctrl-a"@
        }),
        key.action is Paste ==> key.keys@ == (if mac {
            "cmd-v"@
        } else {
            "ctrl-v"@
        }),
        key.action is Cut ==> key.keys@ == (if mac {
            "cmd-x"@
        } else {
            "ctrl-x"@
        }),
        key.action is Copy ==> key.keys@ == (if mac {
            "cmd-c"@
        } else {
            "ctrl-c"@
        }),
{
}

/// The app can be left from its menu on every platform, by the last item; what
/// only one platform knows is offered there alone.
pub proof fn law_every_platform_can_quit(mac: bool, i: int)
    requires
        0 <= i < app_items(mac).len(),
    ensures
        app_items(mac).last() is Action && app_items(mac).last()->Action_action is Quit,
        app_items(mac)[0] is Disabled && app_items(mac)[0]->Disabled_action is About,
        app_items(mac)[i] is Services ==> mac,
        app_items(mac)[i] is Action && !mac ==> app_items(mac)[i]->Action_action is Quit,
        mac ==> exists|k: int|
            0 <= k < app_items(mac).len() && #[trigger] app_items(mac)[k] is Action && app_items(
                mac,
            )[k]->Action_action is Hide,
{
    if mac {
        assert(app_items(mac)[4] is Action && app_items(mac)[4]->Action_action is Hide);
    }
}

/// The keys of the menus are the Mac's own: no other platform has any.
pub proof fn law_only_the_mac_has_menu_keys(mac: bool, key: MenuKey)
    requires
        keys_of(mac).contains(key),
    ensures
        mac,
        key.action is Quit ==> key.keys@ == "cmd-q"@,
        key.action is Hide ==> key.keys@ == "cmd-h"@,
        key.action is HideOthers ==> key.keys@ == "alt-cmd-h"@,
        key.action is Minimize ==> key.keys@ == "cmd-m"@,
        key.action is CloseWindow ==> key.keys@ == "cmd-w"@,
{
}

/// An item of the menus is labelled after what it does.
pub proof fn law_items_are_labelled_after_what_they_do(mac: bool, item: MenuItem)
    requires
        app_items(mac).contains(item) || edit_items().contains(item) || view_items().contains(item)
            || window_items().contains(item),
        item is Action,
    ensures
        item->Action_action is Quit ==> item->Action_label@ == "Quit Keiki"@,
        item->Action_action is Hide ==> item->Action_label@ == "Hide Keiki"@,
        item->Action_action is HideOthers ==> item->Action_label@ == "Hide Others"@,
        item->Action_action is ShowAll ==> item->Action_label@ == "Show All"@,
        item->Action_action is Undo ==> item->Action_label@ == "Undo"@,
        item->Action_action is Redo ==> item->Action_label@ == "Redo"@,
        item->Action_action is Minimize ==> item->Action_label@ == "Minimize"@,
        item->Action_action is Zoom ==> item->Action_label@ == "Zoom"@,
        item->Action_action is CloseWindow ==> item->Action_label@ == "Close Window"@,
        item->Action_action is AppearanceSystem ==> item->Action_label@ == "Appearance: System"@,
        item->Action_action is AppearanceLight ==> item->Action_label@ == "Appearance: Light"@,
        item->Action_action is AppearanceDark ==> item->Action_label@ == "Appearance: Dark"@,
{
}

/// A menu has its title and its items.
pub proof fn law_a_menu_holds_its_items(menu: Menu, title: Seq<char>, items: Seq<MenuItem>)
    requires
        is_menu(menu, title, items),
    ensures
        menu.title@ == title,
        menu.items@ == items,
{
}

/// The clipboard's items are the platform's own, and do what they are called.
pub proof fn law_the_clipboard_is_the_platforms(item: MenuItem)
    requires
        edit_items().contains(item),
        item is Platform,
    ensures
        item->Platform_action is Cut ==> item->Platform_label@ == "Cut"@,
        item->Platform_action is Copy ==> item->Platform_label@ == "Copy"@,
        item->Platform_action is Paste ==> item->Platform_label@ == "Paste"@,
        item->Platform_action is SelectAll ==> item->Platform_label@ == "Select All"@,
        item->Platform_action is Cut || item->Platform_action is Copy
            || item->Platform_action is Paste || item->Platform_action is SelectAll,
{
}

} // verus!
