//! The tray menu: its entries in the interface language, and what each one does.
use vstd::prelude::*;

use crate::i18n::{translate, I18n};
use crate::text::{chars_eq, chars_of};

verus! {

broadcast use vstd::string::group_string_axioms;

/// One entry of the tray menu.
#[derive(Debug, Clone, PartialEq, Eq)]
pub enum MenuEntry {
    /// A clickable item with its id and its label.
    Item(String, String),
    Separator,
}

/// The mathematical value of a `MenuEntry`.
pub enum MenuEntryView {
    Item(Seq<char>, Seq<char>),
    Separator,
}

impl View for MenuEntry {
    type V = MenuEntryView;

    open spec fn view(&self) -> MenuEntryView {
        match self {
            MenuEntry::Item(id, label) => MenuEntryView::Item(id@, label@),
            MenuEntry::Separator => MenuEntryView::Separator,
        }
    }
}

/// What a click on a tray menu item asks for.
#[derive(Debug, Clone, PartialEq, Eq)]
pub enum TrayAction {
    /// Show the main window and open the settings.
    OpenSettings,
    /// Show the main window and open the log view.
    OpenLogs,
    /// Switch the interface to the language with this code.
    SetLanguage(String),
    /// Show the main window and open the about box.
    OpenAbout,
    /// Log the exit and quit.
    Quit,
    /// An unknown item: nothing to do.
    Ignore,
}

/// The mathematical value of a `TrayAction`.
pub enum TrayActionView {
    OpenSettings,
    OpenLogs,
    SetLanguage(Seq<char>),
    OpenAbout,
    Quit,
    Ignore,
}

impl View for TrayAction {
    type V = TrayActionView;

    open spec fn view(&self) -> TrayActionView {
        match self {
            TrayAction::OpenSettings => TrayActionView::OpenSettings,
            TrayAction::OpenLogs => TrayActionView::OpenLogs,
            TrayAction::SetLanguage(l) => TrayActionView::SetLanguage(l@),
            TrayAction::OpenAbout => TrayActionView::OpenAbout,
            TrayAction::Quit => TrayActionView::Quit,
            TrayAction::Ignore => TrayActionView::Ignore,
        }
    }
}

/// The entries of the tray menu, top to bottom, with labels in language `lang`:
/// settings, logs, a separator, the two languages (named in themselves), a separator,
/// about and quit.
pub open spec fn menu_entries(dict: Map<Seq<char>, Map<Seq<char>, Seq<char>>>, lang: Seq<char>) -> Seq<
    MenuEntryView,
> {
    seq![
        MenuEntryView::Item("settings"@, translate(dict, lang, "settings"@)),
        MenuEntryView::Item("logs"@, translate(dict, lang, "view_logs"@)),
        MenuEntryView::Separator,
        MenuEntryView::Item("lang_zh"@, "中文"@),
        MenuEntryView::Item("lang_en"@, "English"@),
        MenuEntryView::Separator,
        MenuEntryView::Item("about"@, translate(dict, lang, "about"@)),
        MenuEntryView::Item("quit"@, translate(dict, lang, "quit"@)),
    ]
}

fn item(id: &str, label: String) -> (r: MenuEntry)
    ensures
        r@ == MenuEntryView::Item(id@, label@),
{
    MenuEntry::Item(String::from_str(id), label)
}

/// The entries of the tray menu with labels in language `lang`.
pub fn tray_menu(i18n: &I18n, lang: &str) -> (r: Vec<MenuEntry>)
    ensures
        r@.map_values(|e: MenuEntry| e@) == menu_entries(i18n@, lang@),
{
    let r = vec![
        item("settings", i18n.t(lang, "settings")),
        item("logs", i18n.t(lang, "view_logs")),
        MenuEntry::Separator,
        item("lang_zh", String::from_str("中文")),
        item("lang_en", String::from_str("English")),
        MenuEntry::Separator,
        item("about", i18n.t(lang, "about")),
        item("quit", i18n.t(lang, "quit")),
    ];
    assert(r@.map_values(|e: MenuEntry| e@) =~= menu_entries(i18n@, lang@));
    r
}

/// What the tray menu item with id `id` does.
pub open spec fn action_of(id: Seq<char>) -> TrayActionView {
    if id == "settings"@ {
        TrayActionView::OpenSettings
    } else if id == "logs"@ {
        TrayActionView::OpenLogs
    } else if id == "lang_zh"@ {
        TrayActionView::SetLanguage("zh"@)
    } else if id == "lang_en"@ {
        TrayActionView::SetLanguage("en"@)
    } else if id == "about"@ {
        TrayActionView::OpenAbout
    } else if id == "quit"@ {
        TrayActionView::Quit
    } else {
        TrayActionView::Ignore
    }
}

fn is_id(id: &Vec<char>, name: &str) -> (r: bool)
    ensures
        r == (id@ == name@),
{
    chars_eq(id, &chars_of(name))
}

/// What a click on the tray menu item with id `id` does.
pub fn tray_action(id: &str) -> (r: TrayAction)
    ensures
        r@ == action_of(id@),
{
    let v = chars_of(id);
    if is_id(&v, "settings") {
        TrayAction::OpenSettings
    } else if is_id(&v, "logs") {
        TrayAction::OpenLogs
    } else if is_id(&v, "lang_zh") {
        TrayAction::SetLanguage(String::from_str("zh"))
    } else if is_id(&v, "lang_en") {
        TrayAction::SetLanguage(String::from_str("en"))
    } else if is_id(&v, "about") {
        TrayAction::OpenAbout
    } else if is_id(&v, "quit") {
        TrayAction::Quit
    } else {
        TrayAction::Ignore
    }
}

/// Every item of the tray menu does something: no item falls through to "nothing to do".
pub proof fn law_menu_items_handled(dict: Map<Seq<char>, Map<Seq<char>, Seq<char>>>, lang: Seq<char>)
    ensures
        forall|k: int|
            0 <= k < menu_entries(dict, lang).len() ==> match #[trigger] menu_entries(dict, lang)[k] {
                MenuEntryView::Item(id, _) => !(action_of(id) is Ignore),
                MenuEntryView::Separator => true,
            },
{
}

} // verus!
