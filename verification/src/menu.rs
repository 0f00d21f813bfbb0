//! The menu bar: actions, the menu layout, navigation between items and
//! the enabling of items.
use crate::state::AppState;
use crate::ui::ActivePane;
use crate::listing::AddressingMode;
use vstd::prelude::*;

verus! {

/// Everything the menu (and the key bindings) can ask for.
#[derive(Clone, Copy, Debug, PartialEq, Eq, Structural)]
pub enum MenuAction {
    Exit,
    Open,
    Save,
    SaveAs,
    ExportProject,
    ExportProjectAs,
    Undo,
    Redo,
    Code,
    Byte,
    Word,
    Address,
    Text,
    Screencode,
    Analyze,
    DocumentSettings,
    JumpToAddress,
    JumpToLine,
    JumpToOperand,
    SetLoHi,
    SetHiLo,
    SetExternalFile,
    SideComment,
    LineComment,
    ToggleHexDump,
    ToggleSpritesView,
    About,
    ChangeOrigin,
    KeyboardShortcuts,
    Undefined,
    SystemSettings,
    NextImmediateFormat,
    PreviousImmediateFormat,
    Search,
    FindNext,
    FindPrevious,
    HexdumpViewModeNext,
    HexdumpViewModePrev,
    ToggleSpriteMulticolor,
    ToggleCharsetView,
    ToggleCharsetMulticolor,
    ToggleBlocksView,
    ToggleCollapsedBlock,
    ToggleSplitter,
}

/// The actions that can run without an open document.
pub open spec fn works_without_document(a: MenuAction) -> bool {
    a == MenuAction::Exit || a == MenuAction::Open || a == MenuAction::About || a
        == MenuAction::KeyboardShortcuts || a == MenuAction::SystemSettings || a
        == MenuAction::Search
}

/// The name of an action.
pub open spec fn action_name(a: MenuAction) -> Seq<char> {
    match a {
        MenuAction::Exit => "Exit"@,
        MenuAction::Open => "Open"@,
        MenuAction::Save => "Save"@,
        MenuAction::SaveAs => "SaveAs"@,
        MenuAction::ExportProject => "ExportProject"@,
        MenuAction::ExportProjectAs => "ExportProjectAs"@,
        MenuAction::Undo => "Undo"@,
        MenuAction::Redo => "Redo"@,
        MenuAction::Code => "Code"@,
        MenuAction::Byte => "Byte"@,
        MenuAction::Word => "Word"@,
        MenuAction::Address => "Address"@,
        MenuAction::Text => "Text"@,
        MenuAction::Screencode => "Screencode"@,
        MenuAction::Analyze => "Analyze"@,
        MenuAction::DocumentSettings => "DocumentSettings"@,
        MenuAction::JumpToAddress => "JumpToAddress"@,
        MenuAction::JumpToLine => "JumpToLine"@,
        MenuAction::JumpToOperand => "JumpToOperand"@,
        MenuAction::SetLoHi => "SetLoHi"@,
        MenuAction::SetHiLo => "SetHiLo"@,
        MenuAction::SetExternalFile => "SetExternalFile"@,
        MenuAction::SideComment => "SideComment"@,
        MenuAction::LineComment => "LineComment"@,
        MenuAction::ToggleHexDump => "ToggleHexDump"@,
        MenuAction::ToggleSpritesView => "ToggleSpritesView"@,
        MenuAction::About => "About"@,
        MenuAction::ChangeOrigin => "ChangeOrigin"@,
        MenuAction::KeyboardShortcuts => "KeyboardShortcuts"@,
        MenuAction::Undefined => "Undefined"@,
        MenuAction::SystemSettings => "SystemSettings"@,
        MenuAction::NextImmediateFormat => "NextImmediateFormat"@,
        MenuAction::PreviousImmediateFormat => "PreviousImmediateFormat"@,
        MenuAction::Search => "Search"@,
        MenuAction::FindNext => "FindNext"@,
        MenuAction::FindPrevious => "FindPrevious"@,
        MenuAction::HexdumpViewModeNext => "HexdumpViewModeNext"@,
        MenuAction::HexdumpViewModePrev => "HexdumpViewModePrev"@,
        MenuAction::ToggleSpriteMulticolor => "ToggleSpriteMulticolor"@,
        MenuAction::ToggleCharsetView => "ToggleCharsetView"@,
        MenuAction::ToggleCharsetMulticolor => "ToggleCharsetMulticolor"@,
        MenuAction::ToggleBlocksView => "ToggleBlocksView"@,
        MenuAction::ToggleCollapsedBlock => "ToggleCollapsedBlock"@,
        MenuAction::ToggleSplitter => "ToggleSplitter"@,
    }
}

impl MenuAction {
    /// Whether the action needs an open document.
    pub fn requires_document(&self) -> (r: bool)
        ensures
            r == !works_without_document(*self),
    {
        match self {
            MenuAction::Exit | MenuAction::Open | MenuAction::About | MenuAction::KeyboardShortcuts
            | MenuAction::SystemSettings | MenuAction::Search => false,
            _ => true,
        }
    }

    /// The name of the action.
    pub fn name(&self) -> (s: &'static str)
        ensures
            s@ == action_name(*self),
    {
        match self {
            MenuAction::Exit => "Exit",
            MenuAction::Open => "Open",
            MenuAction::Save => "Save",
            MenuAction::SaveAs => "SaveAs",
            MenuAction::ExportProject => "ExportProject",
            MenuAction::ExportProjectAs => "ExportProjectAs",
            MenuAction::Undo => "Undo",
            MenuAction::Redo => "Redo",
            MenuAction::Code => "Code",
            MenuAction::Byte => "Byte",
            MenuAction::Word => "Word",
            MenuAction::Address => "Address",
            MenuAction::Text => "Text",
            MenuAction::Screencode => "Screencode",
            MenuAction::Analyze => "Analyze",
            MenuAction::DocumentSettings => "DocumentSettings",
            MenuAction::JumpToAddress => "JumpToAddress",
            MenuAction::JumpToLine => "JumpToLine",
            MenuAction::JumpToOperand => "JumpToOperand",
            MenuAction::SetLoHi => "SetLoHi",
            MenuAction::SetHiLo => "SetHiLo",
            MenuAction::SetExternalFile => "SetExternalFile",
            MenuAction::SideComment => "SideComment",
            MenuAction::LineComment => "LineComment",
            MenuAction::ToggleHexDump => "ToggleHexDump",
            MenuAction::ToggleSpritesView => "ToggleSpritesView",
            MenuAction::About => "About",
            MenuAction::ChangeOrigin => "ChangeOrigin",
            MenuAction::KeyboardShortcuts => "KeyboardShortcuts",
            MenuAction::Undefined => "Undefined",
            MenuAction::SystemSettings => "SystemSettings",
            MenuAction::NextImmediateFormat => "NextImmediateFormat",
            MenuAction::PreviousImmediateFormat => "PreviousImmediateFormat",
            MenuAction::Search => "Search",
            MenuAction::FindNext => "FindNext",
            MenuAction::FindPrevious => "FindPrevious",
            MenuAction::HexdumpViewModeNext => "HexdumpViewModeNext",
            MenuAction::HexdumpViewModePrev => "HexdumpViewModePrev",
            MenuAction::ToggleSpriteMulticolor => "ToggleSpriteMulticolor",
            MenuAction::ToggleCharsetView => "ToggleCharsetView",
            MenuAction::ToggleCharsetMulticolor => "ToggleCharsetMulticolor",
            MenuAction::ToggleBlocksView => "ToggleBlocksView",
            MenuAction::ToggleCollapsedBlock => "ToggleCollapsedBlock",
            MenuAction::ToggleSplitter => "ToggleSplitter",
        }
    }
}

/// An entry of a menu.
#[derive(Clone, Debug)]
pub struct MenuItem {
    pub name: String,
    pub shortcut: Option<String>,
    pub is_separator: bool,
    pub action: Option<MenuAction>,
    pub disabled: bool,
}

impl MenuItem {
    /// An enabled entry.
    pub fn new(name: &str, shortcut: Option<&str>, action: Option<MenuAction>) -> (item: MenuItem)
        ensures
            item.name@ == name@,
            match shortcut {
                Some(s) => item.shortcut matches Some(t) && t@ == s@,
                None => item.shortcut is None,
            },
            !item.is_separator,
            item.action == action,
            !item.disabled,
    {
        let shortcut = match shortcut {
            Some(s) => Some(s.to_string()),
            None => None,
        };
        MenuItem { name: name.to_string(), shortcut, is_separator: false, action, disabled: false }
    }

    /// A separator line.
    pub fn separator() -> (item: MenuItem)
        ensures
            item.name@.len() == 0,
            item.shortcut is None,
            item.is_separator,
            item.action is None,
            !item.disabled,
    {
        MenuItem {
            name: String::new(),
            shortcut: None,
            is_separator: true,
            action: None,
            disabled: false,
        }
    }
}

/// A menu of the menu bar.
pub struct MenuCategory {
    pub name: String,
    pub items: Vec<MenuItem>,
}

/// How a menu entry is laid out.
pub enum ItemSpec {
    Entry(Seq<char>, Option<Seq<char>>, MenuAction),
    Separator,
}

/// `item` is the enabled entry `spec`.
pub open spec fn item_matches(item: MenuItem, spec: ItemSpec) -> bool {
    &&& !item.disabled
    &&& match spec {
        ItemSpec::Entry(name, shortcut, action) => {
            &&& item.name@ == name
            &&& match shortcut {
                Some(s) => item.shortcut matches Some(t) && t@ == s,
                None => item.shortcut is None,
            }
            &&& !item.is_separator
            &&& item.action == Some(action)
        },
        ItemSpec::Separator => {
            &&& item.name@.len() == 0
            &&& item.shortcut is None
            &&& item.is_separator
            &&& item.action is None
        },
    }
}

/// The entries `items` are laid out as `specs`.
pub open spec fn items_match(items: Seq<MenuItem>, specs: Seq<ItemSpec>) -> bool {
    &&& items.len() == specs.len()
    &&& forall|i: int| 0 <= i < items.len() ==> item_matches(#[trigger] items[i], specs[i])
}

/// The items of the File menu.
pub open spec fn file_menu_items() -> Seq<ItemSpec> {
    seq![
            ItemSpec::Entry("Open"@, Some("Ctrl+O"@), MenuAction::Open),
            ItemSpec::Entry("Save"@, Some("Ctrl+S"@), MenuAction::Save),
            ItemSpec::Entry("Save As..."@, Some("Alt+S"@), MenuAction::SaveAs),
            ItemSpec::Separator,
            ItemSpec::Entry("Export Project"@, Some("Ctrl+E"@), MenuAction::ExportProject),
            ItemSpec::Entry("Export Project As..."@, Some("Alt+E"@), MenuAction::ExportProjectAs),
            ItemSpec::Separator,
            ItemSpec::Entry("Settings"@, Some("Alt+O"@), MenuAction::SystemSettings),
            ItemSpec::Separator,
            ItemSpec::Entry("Exit"@, Some("Ctrl+Q"@), MenuAction::Exit),
    ]
}

/// The items of the Edit menu.
pub open spec fn edit_menu_items() -> Seq<ItemSpec> {
    seq![
            ItemSpec::Entry("Undo"@, Some("U"@), MenuAction::Undo),
            ItemSpec::Entry("Redo"@, Some("Ctrl+R"@), MenuAction::Redo),
            ItemSpec::Separator,
            ItemSpec::Entry("Code"@, Some("C"@), MenuAction::Code),
            ItemSpec::Entry("Byte"@, Some("B"@), MenuAction::Byte),
            ItemSpec::Entry("Word"@, Some("W"@), MenuAction::Word),
            ItemSpec::Entry("Address"@, Some("A"@), MenuAction::Address),
            ItemSpec::Entry("Lo/Hi Address"@, Some("<"@), MenuAction::SetLoHi),
            ItemSpec::Entry("Hi/Lo Address"@, Some(">"@), MenuAction::SetHiLo),
            ItemSpec::Entry("External File"@, Some("e"@), MenuAction::SetExternalFile),
            ItemSpec::Entry("PETSCII Text"@, Some("T"@), MenuAction::Text),
            ItemSpec::Entry("Screencode Text"@, Some("S"@), MenuAction::Screencode),
            ItemSpec::Entry("Undefined"@, Some("?"@), MenuAction::Undefined),
            ItemSpec::Separator,
            ItemSpec::Entry("Next Imm. Mode Format"@, Some("d"@), MenuAction::NextImmediateFormat),
            ItemSpec::Entry("Prev Imm. Mode Format"@, Some("Shift+D"@), MenuAction::PreviousImmediateFormat),
            ItemSpec::Separator,
            ItemSpec::Entry("Toggle Splitter"@, Some("|"@), MenuAction::ToggleSplitter),
            ItemSpec::Separator,
            ItemSpec::Entry("Side Comment"@, Some(";"@), MenuAction::SideComment),
            ItemSpec::Entry("Line Comment"@, Some("Shift+;"@), MenuAction::LineComment),
            ItemSpec::Separator,
            ItemSpec::Entry("Toggle Collapsed Block"@, Some("Ctrl+K"@), MenuAction::ToggleCollapsedBlock),
            ItemSpec::Separator,
            ItemSpec::Entry("Change Origin"@, None, MenuAction::ChangeOrigin),
            ItemSpec::Separator,
            ItemSpec::Entry("Analyze"@, Some("Ctrl+A"@), MenuAction::Analyze),
            ItemSpec::Separator,
            ItemSpec::Entry("Document Settings"@, Some("Alt+D"@), MenuAction::DocumentSettings),
    ]
}

/// The items of the Jump menu.
pub open spec fn jump_menu_items() -> Seq<ItemSpec> {
    seq![
            ItemSpec::Entry("Jump to address"@, Some("G"@), MenuAction::JumpToAddress),
            ItemSpec::Entry("Jump to line"@, Some("Alt+G"@), MenuAction::JumpToLine),
            ItemSpec::Entry("Jump to operand"@, Some("Enter"@), MenuAction::JumpToOperand),
    ]
}

/// The items of the Search menu.
pub open spec fn search_menu_items() -> Seq<ItemSpec> {
    seq![
            ItemSpec::Entry("Search..."@, Some("Ctrl+F"@), MenuAction::Search),
            ItemSpec::Entry("Find Next"@, Some("F3"@), MenuAction::FindNext),
            ItemSpec::Entry("Find Previous"@, Some("Shift+F3"@), MenuAction::FindPrevious),
    ]
}

/// The items of the View menu.
pub open spec fn view_menu_items() -> Seq<ItemSpec> {
    seq![
            ItemSpec::Entry("Next Hex Dump Mode"@, Some("m"@), MenuAction::HexdumpViewModeNext),
            ItemSpec::Entry("Prev Hex Dump Mode"@, Some("Shift+M"@), MenuAction::HexdumpViewModePrev),
            ItemSpec::Entry("Toggle Multicolor Sprites"@, Some("m"@), MenuAction::ToggleSpriteMulticolor),
            ItemSpec::Entry("Toggle Multicolor Charset"@, Some("m"@), MenuAction::ToggleCharsetMulticolor),
            ItemSpec::Separator,
            ItemSpec::Entry("Toggle Hex Dump"@, Some("Alt+2"@), MenuAction::ToggleHexDump),
            ItemSpec::Entry("Toggle Sprites View"@, Some("Alt+3"@), MenuAction::ToggleSpritesView),
            ItemSpec::Entry("Toggle Charset View"@, Some("Alt+4"@), MenuAction::ToggleCharsetView),
            ItemSpec::Entry("Toggle Blocks View"@, Some("Alt+5"@), MenuAction::ToggleBlocksView),
    ]
}

/// The items of the Help menu.
pub open spec fn help_menu_items() -> Seq<ItemSpec> {
    seq![
            ItemSpec::Entry("Keyboard Shortcuts"@, None, MenuAction::KeyboardShortcuts),
            ItemSpec::Separator,
            ItemSpec::Entry("About"@, None, MenuAction::About),
    ]
}

/// Names of the menus of the menu bar.
pub open spec fn menu_names() -> Seq<Seq<char>> {
    seq!["File"@, "Edit"@, "Jump"@, "Search"@, "View"@, "Help"@]
}

/// Entries of the menus of the menu bar.
pub open spec fn menu_layout() -> Seq<Seq<ItemSpec>> {
    seq![
        file_menu_items(),
        edit_menu_items(),
        jump_menu_items(),
        search_menu_items(),
        view_menu_items(),
        help_menu_items(),
    ]
}

fn file_menu() -> (c: MenuCategory)
    ensures
        c.name@ == "File"@,
        items_match(c.items@, file_menu_items()),
{
    let items = vec![
            MenuItem::new("Open", Some("Ctrl+O"), Some(MenuAction::Open)),
            MenuItem::new("Save", Some("Ctrl+S"), Some(MenuAction::Save)),
            MenuItem::new("Save As...", Some("Alt+S"), Some(MenuAction::SaveAs)),
            MenuItem::separator(),
            MenuItem::new("Export Project", Some("Ctrl+E"), Some(MenuAction::ExportProject)),
            MenuItem::new("Export Project As...", Some("Alt+E"), Some(MenuAction::ExportProjectAs)),
            MenuItem::separator(),
            MenuItem::new("Settings", Some("Alt+O"), Some(MenuAction::SystemSettings)),
            MenuItem::separator(),
            MenuItem::new("Exit", Some("Ctrl+Q"), Some(MenuAction::Exit)),
    ];
    let c = MenuCategory { name: "File".to_string(), items };
    assert(items_match(c.items@, file_menu_items()));
    c
}

fn edit_menu() -> (c: MenuCategory)
    ensures
        c.name@ == "Edit"@,
        items_match(c.items@, edit_menu_items()),
{
    let items = vec![
            MenuItem::new("Undo", Some("U"), Some(MenuAction::Undo)),
            MenuItem::new("Redo", Some("Ctrl+R"), Some(MenuAction::Redo)),
            MenuItem::separator(),
            MenuItem::new("Code", Some("C"), Some(MenuAction::Code)),
            MenuItem::new("Byte", Some("B"), Some(MenuAction::Byte)),
            MenuItem::new("Word", Some("W"), Some(MenuAction::Word)),
            MenuItem::new("Address", Some("A"), Some(MenuAction::Address)),
            MenuItem::new("Lo/Hi Address", Some("<"), Some(MenuAction::SetLoHi)),
            MenuItem::new("Hi/Lo Address", Some(">"), Some(MenuAction::SetHiLo)),
            MenuItem::new("External File", Some("e"), Some(MenuAction::SetExternalFile)),
            MenuItem::new("PETSCII Text", Some("T"), Some(MenuAction::Text)),
            MenuItem::new("Screencode Text", Some("S"), Some(MenuAction::Screencode)),
            MenuItem::new("Undefined", Some("?"), Some(MenuAction::Undefined)),
            MenuItem::separator(),
            MenuItem::new("Next Imm. Mode Format", Some("d"), Some(MenuAction::NextImmediateFormat)),
            MenuItem::new("Prev Imm. Mode Format", Some("Shift+D"), Some(MenuAction::PreviousImmediateFormat)),
            MenuItem::separator(),
            MenuItem::new("Toggle Splitter", Some("|"), Some(MenuAction::ToggleSplitter)),
            MenuItem::separator(),
            MenuItem::new("Side Comment", Some(";"), Some(MenuAction::SideComment)),
            MenuItem::new("Line Comment", Some("Shift+;"), Some(MenuAction::LineComment)),
            MenuItem::separator(),
            MenuItem::new("Toggle Collapsed Block", Some("Ctrl+K"), Some(MenuAction::ToggleCollapsedBlock)),
            MenuItem::separator(),
            MenuItem::new("Change Origin", None, Some(MenuAction::ChangeOrigin)),
            MenuItem::separator(),
            MenuItem::new("Analyze", Some("Ctrl+A"), Some(MenuAction::Analyze)),
            MenuItem::separator(),
            MenuItem::new("Document Settings", Some("Alt+D"), Some(MenuAction::DocumentSettings)),
    ];
    let c = MenuCategory { name: "Edit".to_string(), items };
    assert(items_match(c.items@, edit_menu_items()));
    c
}

fn jump_menu() -> (c: MenuCategory)
    ensures
        c.name@ == "Jump"@,
        items_match(c.items@, jump_menu_items()),
{
    let items = vec![
            MenuItem::new("Jump to address", Some("G"), Some(MenuAction::JumpToAddress)),
            MenuItem::new("Jump to line", Some("Alt+G"), Some(MenuAction::JumpToLine)),
            MenuItem::new("Jump to operand", Some("Enter"), Some(MenuAction::JumpToOperand)),
    ];
    let c = MenuCategory { name: "Jump".to_string(), items };
    assert(items_match(c.items@, jump_menu_items()));
    c
}

fn search_menu() -> (c: MenuCategory)
    ensures
        c.name@ == "Search"@,
        items_match(c.items@, search_menu_items()),
{
    let items = vec![
            MenuItem::new("Search...", Some("Ctrl+F"), Some(MenuAction::Search)),
            MenuItem::new("Find Next", Some("F3"), Some(MenuAction::FindNext)),
            MenuItem::new("Find Previous", Some("Shift+F3"), Some(MenuAction::FindPrevious)),
    ];
    let c = MenuCategory { name: "Search".to_string(), items };
    assert(items_match(c.items@, search_menu_items()));
    c
}

fn view_menu() -> (c: MenuCategory)
    ensures
        c.name@ == "View"@,
        items_match(c.items@, view_menu_items()),
{
    let items = vec![
            MenuItem::new("Next Hex Dump Mode", Some("m"), Some(MenuAction::HexdumpViewModeNext)),
            MenuItem::new("Prev Hex Dump Mode", Some("Shift+M"), Some(MenuAction::HexdumpViewModePrev)),
            MenuItem::new("Toggle Multicolor Sprites", Some("m"), Some(MenuAction::ToggleSpriteMulticolor)),
            MenuItem::new("Toggle Multicolor Charset", Some("m"), Some(MenuAction::ToggleCharsetMulticolor)),
            MenuItem::separator(),
            MenuItem::new("Toggle Hex Dump", Some("Alt+2"), Some(MenuAction::ToggleHexDump)),
            MenuItem::new("Toggle Sprites View", Some("Alt+3"), Some(MenuAction::ToggleSpritesView)),
            MenuItem::new("Toggle Charset View", Some("Alt+4"), Some(MenuAction::ToggleCharsetView)),
            MenuItem::new("Toggle Blocks View", Some("Alt+5"), Some(MenuAction::ToggleBlocksView)),
    ];
    let c = MenuCategory { name: "View".to_string(), items };
    assert(items_match(c.items@, view_menu_items()));
    c
}

fn help_menu() -> (c: MenuCategory)
    ensures
        c.name@ == "Help"@,
        items_match(c.items@, help_menu_items()),
{
    let items = vec![
            MenuItem::new("Keyboard Shortcuts", None, Some(MenuAction::KeyboardShortcuts)),
            MenuItem::separator(),
            MenuItem::new("About", None, Some(MenuAction::About)),
    ];
    let c = MenuCategory { name: "Help".to_string(), items };
    assert(items_match(c.items@, help_menu_items()));
    c
}

/// The state of the menu bar.
pub struct MenuState {
    pub active: bool,
    pub categories: Vec<MenuCategory>,
    pub selected_category: usize,
    pub selected_item: Option<usize>,
}

impl Default for MenuState {
    fn default() -> (m: Self)
        ensures
            !m.active,
            m.categories@.len() == 0,
            m.selected_category == 0,
            m.selected_item is None,
    {
        MenuState { active: false, categories: Vec::new(), selected_category: 0, selected_item: None }
    }
}

impl MenuState {
    /// The menu bar with its six menus, closed, first menu selected.
    pub fn new() -> (m: MenuState)
        ensures
            !m.active,
            m.selected_category == 0,
            m.selected_item is None,
            m.categories@.len() == 6,
            forall|c: int|
                0 <= c < 6 ==> #[trigger] m.categories@[c].name@ == menu_names()[c] && items_match(
                    m.categories@[c].items@,
                    menu_layout()[c],
                ),
    {
        let categories = vec![file_menu(), edit_menu(), jump_menu(), search_menu(), view_menu(), help_menu()];
        MenuState { active: false, categories, selected_category: 0, selected_item: None }
    }
}


/// An entry the cursor can stop on.
pub open spec fn selectable(item: MenuItem) -> bool {
    !item.is_separator && !item.disabled
}

/// Index of the `k`-th entry after (`forward`) or before `current`,
/// cyclically among `count` entries.
pub open spec fn reach(forward: bool, current: int, k: int, count: int) -> int {
    if forward {
        (current + k) % count
    } else {
        (current - k) % count
    }
}

/// `result` is the first selectable entry among the entries reached from
/// `current` in `k = 1..=count` steps, or `old_sel` when there is none.
pub open spec fn first_reached(
    items: Seq<MenuItem>,
    forward: bool,
    current: int,
    old_sel: Option<usize>,
    result: Option<usize>,
) -> bool {
    let count = items.len() as int;
    if exists|k: int| 1 <= k <= count && #[trigger] selectable(items[reach(forward, current, k, count)]) {
        exists|k: int|
            #![trigger reach(forward, current, k, count)]
            1 <= k <= count && selectable(items[reach(forward, current, k, count)]) && result == Some(
                reach(forward, current, k, count) as usize,
            ) && forall|j: int|
                1 <= j < k ==> !#[trigger] selectable(items[reach(forward, current, j, count)])
    } else {
        result == old_sel
    }
}

proof fn lemma_step_forward(a: int, n: int)
    requires
        n > 0,
    ensures
        (a + 1) % n == if a % n == n - 1 {
            0
        } else {
            a % n + 1
        },
{
    vstd::arithmetic::div_mod::lemma_add_mod_noop(a, 1, n);
    if n == 1 {
        vstd::arithmetic::div_mod::lemma_mod_self_0(1);
        vstd::arithmetic::div_mod::lemma_mod_add_multiples_vanish(a, 1);
        assert((a + 1) % 1 == 0) by {
            vstd::arithmetic::div_mod::lemma_mod_multiples_basic(a + 1, 1);
        }
    } else {
        vstd::arithmetic::div_mod::lemma_small_mod(1, n as nat);
        if a % n == n - 1 {
            vstd::arithmetic::div_mod::lemma_mod_self_0(n);
        } else {
            vstd::arithmetic::div_mod::lemma_small_mod((a % n + 1) as nat, n as nat);
        }
    }
}

proof fn lemma_step_backward(a: int, n: int)
    requires
        n > 0,
    ensures
        (a - 1) % n == if a % n == 0 {
            n - 1
        } else {
            a % n - 1
        },
{
    vstd::arithmetic::div_mod::lemma_sub_mod_noop(a, 1, n);
    if n > 1 {
        vstd::arithmetic::div_mod::lemma_small_mod(1, n as nat);
        if a % n == 0 {
            vstd::arithmetic::div_mod::lemma_mod_add_multiples_vanish(-1, n);
            vstd::arithmetic::div_mod::lemma_small_mod((n - 1) as nat, n as nat);
        } else {
            vstd::arithmetic::div_mod::lemma_small_mod((a % n - 1) as nat, n as nat);
        }
    } else {
    }
}

/// The items of the selected menu.
pub open spec fn selected_items(m: &MenuState) -> Seq<MenuItem> {
    m.categories@[m.selected_category as int].items@
}

/// The first selectable entry of `items`, if any.
pub open spec fn first_selectable(items: Seq<MenuItem>, r: Option<usize>) -> bool {
    crate::listing::is_first_match(items, |it: MenuItem| selectable(it), r)
}

impl MenuState {
    /// Selects the first entry of the selected menu that is neither a
    /// separator nor disabled (none when there is no such entry).
    pub fn select_first_enabled_item(&mut self)
        requires
            old(self).selected_category < old(self).categories@.len(),
        ensures
            first_selectable(selected_items(old(self)), final(self).selected_item),
            final(self).active == old(self).active,
            final(self).categories == old(self).categories,
            final(self).selected_category == old(self).selected_category,
    {
        let items = &self.categories[self.selected_category].items;
        let mut i: usize = 0;
        while i < items.len()
            invariant
                i <= items@.len(),
                *self == *old(self),
                items@ == selected_items(old(self)),
                forall|j: int| 0 <= j < i ==> !selectable(#[trigger] items@[j]),
            decreases items@.len() - i,
        {
            if !items[i].is_separator && !items[i].disabled {
                self.selected_item = Some(i);
                return;
            }
            i = i + 1;
        }
        self.selected_item = None;
    }

    /// Moves to the next menu (cyclically); an open menu then selects its
    /// first selectable entry.
    pub fn next_category(&mut self)
        requires
            old(self).categories@.len() > 0,
            old(self).selected_category < usize::MAX,
        ensures
            final(self).selected_category == (old(self).selected_category + 1) % old(
                self,
            ).categories@.len() as int,
            old(self).active ==> first_selectable(selected_items(final(self)), final(self).selected_item),
            !old(self).active ==> final(self).selected_item == old(self).selected_item,
            final(self).active == old(self).active,
            final(self).categories == old(self).categories,
    {
        self.selected_category = (self.selected_category + 1) % self.categories.len();
        if self.active {
            self.select_first_enabled_item();
        }
    }

    /// Moves to the previous menu (cyclically); an open menu then selects
    /// its first selectable entry.
    pub fn previous_category(&mut self)
        requires
            old(self).selected_category == 0 ==> old(self).categories@.len() > 0,
            old(self).active && old(self).selected_category > 0 ==> old(self).selected_category - 1
                < old(self).categories@.len(),
        ensures
            final(self).selected_category == if old(self).selected_category == 0 {
                old(self).categories@.len() - 1
            } else {
                old(self).selected_category - 1
            },
            old(self).active ==> first_selectable(selected_items(final(self)), final(self).selected_item),
            !old(self).active ==> final(self).selected_item == old(self).selected_item,
            final(self).active == old(self).active,
            final(self).categories == old(self).categories,
    {
        if self.selected_category == 0 {
            self.selected_category = self.categories.len() - 1;
        } else {
            self.selected_category = self.selected_category - 1;
        }
        if self.active {
            self.select_first_enabled_item();
        }
    }

    /// Selects the next selectable entry after the selected one (or after
    /// the first, when none is selected), wrapping around; keeps the
    /// selection when there is none.
    pub fn next_item(&mut self)
        requires
            old(self).selected_category < old(self).categories@.len(),
            match old(self).selected_item {
                Some(c) => c < usize::MAX,
                None => true,
            },
        ensures
            ({
                let items = selected_items(old(self));
                let current = match old(self).selected_item {
                    Some(c) => c as int,
                    None => 0,
                };
                first_reached(items, true, current, old(self).selected_item, final(self).selected_item)
            }),
            final(self).active == old(self).active,
            final(self).categories == old(self).categories,
            final(self).selected_category == old(self).selected_category,
    {
        let items = &self.categories[self.selected_category].items;
        let count = items.len();
        if count == 0 {
            return;
        }
        let current = match self.selected_item {
            Some(c) => c,
            None => 0,
        };
        let mut next = (current + 1) % count;
        let mut k: usize = 0;
        while k < count
            invariant
                k <= count,
                count == items@.len(),
                count > 0,
                items@ == selected_items(old(self)),
                *self == *old(self),
                next == reach(true, current as int, k + 1, count as int),
                next < count,
                current == match old(self).selected_item {
                    Some(c) => c as int,
                    None => 0,
                },
                forall|j: int|
                    1 <= j <= k ==> !#[trigger] selectable(items@[reach(true, current as int, j, count as int)]),
            decreases count - k,
        {
            if !items[next].is_separator && !items[next].disabled {
                self.selected_item = Some(next);
                proof {
                    let kk = (k + 1) as int;
                    assert(selectable(items@[reach(true, current as int, kk, count as int)]));
                }
                return;
            }
            proof {
                lemma_step_forward(current + k + 1, count as int);
            }
            next = if next == count - 1 {
                0
            } else {
                next + 1
            };
            k = k + 1;
        }
    }

    /// Selects the previous selectable entry before the selected one (or
    /// before the first, when none is selected), wrapping around; keeps the
    /// selection when there is none.
    pub fn previous_item(&mut self)
        requires
            old(self).selected_category < old(self).categories@.len(),
            match old(self).selected_item {
                Some(c) => c <= selected_items(old(self)).len(),
                None => true,
            },
        ensures
            ({
                let items = selected_items(old(self));
                let current = match old(self).selected_item {
                    Some(c) => c as int,
                    None => 0,
                };
                first_reached(items, false, current, old(self).selected_item, final(self).selected_item)
            }),
            final(self).active == old(self).active,
            final(self).categories == old(self).categories,
            final(self).selected_category == old(self).selected_category,
    {
        let items = &self.categories[self.selected_category].items;
        let count = items.len();
        if count == 0 {
            return;
        }
        let current = match self.selected_item {
            Some(c) => c,
            None => 0,
        };
        let mut prev = if current == 0 {
            count - 1
        } else {
            current - 1
        };
        proof {
            lemma_step_backward(current as int, count as int);
            if current == count {
                vstd::arithmetic::div_mod::lemma_mod_self_0(count as int);
            } else {
                vstd::arithmetic::div_mod::lemma_small_mod(current as nat, count as nat);
            }
        }
        let mut k: usize = 0;
        while k < count
            invariant
                k <= count,
                count == items@.len(),
                count > 0,
                current <= count,
                items@ == selected_items(old(self)),
                *self == *old(self),
                prev == reach(false, current as int, k + 1, count as int),
                prev < count,
                current == match old(self).selected_item {
                    Some(c) => c as int,
                    None => 0,
                },
                forall|j: int|
                    1 <= j <= k ==> !#[trigger] selectable(items@[reach(false, current as int, j, count as int)]),
            decreases count - k,
        {
            if !items[prev].is_separator && !items[prev].disabled {
                self.selected_item = Some(prev);
                proof {
                    let kk = (k + 1) as int;
                    assert(selectable(items@[reach(false, current as int, kk, count as int)]));
                }
                return;
            }
            proof {
                lemma_step_backward(current - (k + 1), count as int);
            }
            prev = if prev == 0 {
                count - 1
            } else {
                prev - 1
            };
            k = k + 1;
        }
    }
}


/// The listing line under the cursor is an immediate-mode instruction.
pub open spec fn immediate_at(app: &AppState, cursor: usize) -> bool {
    &&& cursor < app.disassembly@.len()
    &&& app.disassembly@[cursor as int].opcode matches Some(op)
    &&& op.mode == AddressingMode::Immediate
}

/// Whether a menu entry for `a` is disabled in the given situation.
pub open spec fn disabled_for(
    a: MenuAction,
    has_document: bool,
    immediate: bool,
    last_search_empty: bool,
    pane: ActivePane,
) -> bool {
    if !works_without_document(a) && !has_document {
        true
    } else {
        match a {
            MenuAction::FindNext | MenuAction::FindPrevious => last_search_empty,
            MenuAction::NextImmediateFormat | MenuAction::PreviousImmediateFormat => !(has_document
                && immediate),
            MenuAction::HexdumpViewModeNext | MenuAction::HexdumpViewModePrev => pane
                != ActivePane::HexDump,
            MenuAction::ToggleSpriteMulticolor => pane != ActivePane::Sprites,
            MenuAction::ToggleCharsetMulticolor => pane != ActivePane::Charset,
            _ => false,
        }
    }
}

/// `new` is `old` with the enabled state of each entry that has an action
/// recomputed.
pub open spec fn item_updated(
    old_item: MenuItem,
    new_item: MenuItem,
    has_document: bool,
    immediate: bool,
    last_search_empty: bool,
    pane: ActivePane,
) -> bool {
    &&& new_item.name == old_item.name
    &&& new_item.shortcut == old_item.shortcut
    &&& new_item.is_separator == old_item.is_separator
    &&& new_item.action == old_item.action
    &&& new_item.disabled == match old_item.action {
        Some(a) => disabled_for(a, has_document, immediate, last_search_empty, pane),
        None => old_item.disabled,
    }
}

fn updated_items(
    items: Vec<MenuItem>,
    has_document: bool,
    immediate: bool,
    last_search_empty: bool,
    pane: ActivePane,
) -> (r: Vec<MenuItem>)
    ensures
        r@.len() == items@.len(),
        forall|i: int|
            0 <= i < items@.len() ==> item_updated(
                #[trigger] items@[i],
                r@[i],
                has_document,
                immediate,
                last_search_empty,
                pane,
            ),
{
    let ghost orig = items@;
    let mut rest = items;
    let mut out: Vec<MenuItem> = Vec::new();
    while rest.len() > 0
        invariant
            out@.len() + rest@.len() == orig.len(),
            rest@ == orig.skip(out@.len() as int),
            forall|i: int|
                0 <= i < out@.len() ==> item_updated(
                    #[trigger] orig[i],
                    out@[i],
                    has_document,
                    immediate,
                    last_search_empty,
                    pane,
                ),
        decreases rest@.len(),
    {
        let ghost n = out@.len();
        let mut item = rest.remove(0);
        assert(item == orig[n as int]);
        match item.action {
            Some(action) => {
                if action.requires_document() && !has_document {
                    item.disabled = true;
                } else {
                    item.disabled =
                    match action {
                        MenuAction::FindNext | MenuAction::FindPrevious => last_search_empty,
                        MenuAction::NextImmediateFormat | MenuAction::PreviousImmediateFormat => {
                            !(has_document && immediate)
                        },
                        MenuAction::HexdumpViewModeNext | MenuAction::HexdumpViewModePrev => {
                            pane != ActivePane::HexDump
                        },
                        MenuAction::ToggleSpriteMulticolor => pane != ActivePane::Sprites,
                        MenuAction::ToggleCharsetMulticolor => pane != ActivePane::Charset,
                        _ => false,
                    };
                }
            },
            None => {},
        }
        out.push(item);
        assert(rest@ =~= orig.skip(out@.len() as int));
    }
    out
}

impl MenuState {
    /// Recomputes which entries are disabled: without a document every
    /// entry that needs one; "find next/previous" without a previous
    /// search; the immediate-format entries unless the cursor line is an
    /// immediate-mode instruction; hex-dump modes outside the hex dump;
    /// multicolor toggles outside their view; everything else enabled.
    pub fn update_availability(
        &mut self,
        app_state: &AppState,
        cursor_index: usize,
        last_search_empty: bool,
        active_pane: ActivePane,
    )
        ensures
            final(self).active == old(self).active,
            final(self).selected_category == old(self).selected_category,
            final(self).selected_item == old(self).selected_item,
            final(self).categories@.len() == old(self).categories@.len(),
            forall|c: int|
                0 <= c < old(self).categories@.len() ==> {
                    let oc = #[trigger] old(self).categories@[c];
                    let nc = final(self).categories@[c];
                    &&& nc.name == oc.name
                    &&& nc.items@.len() == oc.items@.len()
                    &&& forall|i: int|
                        0 <= i < oc.items@.len() ==> item_updated(
                            #[trigger] oc.items@[i],
                            nc.items@[i],
                            app_state.raw_data@.len() > 0,
                            immediate_at(app_state, cursor_index),
                            last_search_empty,
                            active_pane,
                        )
                },
    {
        let has_document = app_state.raw_data.len() > 0;
        let immediate = if has_document && cursor_index < app_state.disassembly.len() {
            match app_state.disassembly[cursor_index].opcode {
                Some(op) => op.mode == AddressingMode::Immediate,
                None => false,
            }
        } else {
            false
        };
        assert(has_document ==> immediate == immediate_at(app_state, cursor_index));
        let mut cats: Vec<MenuCategory> = Vec::new();
        std::mem::swap(&mut cats, &mut self.categories);
        let ghost orig = cats@;
        let mut out: Vec<MenuCategory> = Vec::new();
        while cats.len() > 0
            invariant
                out@.len() + cats@.len() == orig.len(),
                cats@ == orig.skip(out@.len() as int),
                forall|c: int|
                    0 <= c < out@.len() ==> {
                        let oc = #[trigger] orig[c];
                        let nc = out@[c];
                        &&& nc.name == oc.name
                        &&& nc.items@.len() == oc.items@.len()
                        &&& forall|i: int|
                            0 <= i < oc.items@.len() ==> item_updated(
                                #[trigger] oc.items@[i],
                                nc.items@[i],
                                has_document,
                                immediate,
                                last_search_empty,
                                active_pane,
                            )
                    },
            decreases cats@.len(),
        {
            let ghost n = out@.len();
            let cat = cats.remove(0);
            assert(cat == orig[n as int]);
            let MenuCategory { name, items } = cat;
            let items = updated_items(items, has_document, immediate, last_search_empty, active_pane);
            out.push(MenuCategory { name, items });
            assert(cats@ =~= orig.skip(out@.len() as int));
        }
        self.categories = out;
        assert forall|a: MenuAction, pane: ActivePane|
            disabled_for(a, has_document, immediate, last_search_empty, pane) == disabled_for(
                a,
                has_document,
                immediate_at(app_state, cursor_index),
                last_search_empty,
                pane,
            ) by {}
    }
}

/// Moving to the next menu and then to the previous one (as
/// `MenuState::next_category` and `MenuState::previous_category` compute
/// the index) comes back to the same menu, and so does the other order.
pub proof fn law_category_steps_inverse(c: int, n: int)
    requires
        0 <= c < n,
    ensures
        ({
            let next = (c + 1) % n;
            (if next == 0 {
                n - 1
            } else {
                next - 1
            }) == c
        }),
        ({
            let prev = if c == 0 {
                n - 1
            } else {
                c - 1
            };
            (prev + 1) % n == c
        }),
{
    if c + 1 < n {
        assert((c + 1) % n == c + 1) by (nonlinear_arith)
            requires
                0 <= c + 1 < n,
        ;
    } else {
        assert((c + 1) % n == 0) by (nonlinear_arith)
            requires
                c + 1 == n,
                n > 0,
        ;
    }
    if c > 0 {
        assert(c % n == c) by (nonlinear_arith)
            requires
                0 < c < n,
        ;
    } else {
        assert(n % n == 0) by (nonlinear_arith)
            requires
                n > 0,
        ;
    }
}


proof fn lemma_back_from_forward(i: int, k: int, m: int, n: int)
    requires
        n > 0,
    ensures
        reach(false, reach(true, i, k, n), m, n) == reach(true, i, k - m, n),
{
    vstd::arithmetic::div_mod::lemma_add_mod_noop((i + k) % n, -m, n);
    vstd::arithmetic::div_mod::lemma_add_mod_noop(i + k, -m, n);
    vstd::arithmetic::div_mod::lemma_mod_twice(i + k, n);
}

/// Moving to the next selectable entry of a menu and then to the previous
/// one (as `MenuState::next_item` and `MenuState::previous_item` choose
/// them) comes back to a selectable entry started from.
pub proof fn law_item_steps_inverse(
    items: Seq<MenuItem>,
    i: int,
    after_next: Option<usize>,
    after_prev: Option<usize>,
)
    requires
        0 <= i < items.len() <= usize::MAX,
        selectable(items[i]),
        first_reached(items, true, i, Some(i as usize), after_next),
        first_reached(
            items,
            false,
            match after_next {
                Some(j) => j as int,
                None => 0,
            },
            after_next,
            after_prev,
        ),
    ensures
        after_next is Some,
        after_prev == Some(i as usize),
{
    let n = items.len() as int;
    vstd::arithmetic::div_mod::lemma_small_mod(i as nat, n as nat);
    assert(reach(true, i, n, n) == i) by {
        vstd::arithmetic::div_mod::lemma_mod_add_multiples_vanish(i, n);
    }
    assert(selectable(items[reach(true, i, n, n)]));
    let k = choose|k: int|
        #![trigger reach(true, i, k, n)]
        1 <= k <= n && selectable(items[reach(true, i, k, n)]) && after_next == Some(
            reach(true, i, k, n) as usize,
        ) && forall|j: int| 1 <= j < k ==> !#[trigger] selectable(items[reach(true, i, j, n)]);
    let j = reach(true, i, k, n);
    assert(0 <= j < n);
    assert(after_next == Some(j as usize));
    assert((j as usize) as int == j);
    lemma_back_from_forward(i, k, k, n);
    assert(reach(true, i, 0, n) == i);
    assert(selectable(items[reach(false, j, k, n)]));
    let k2 = choose|k2: int|
        #![trigger reach(false, j, k2, n)]
        1 <= k2 <= n && selectable(items[reach(false, j, k2, n)]) && after_prev == Some(
            reach(false, j, k2, n) as usize,
        ) && forall|m: int| 1 <= m < k2 ==> !#[trigger] selectable(items[reach(false, j, m, n)]);
    assert(0 <= reach(false, j, k2, n) < n);
    if k2 < k {
        lemma_back_from_forward(i, k, k2, n);
        assert(!selectable(items[reach(true, i, k - k2, n)]));
    } else if k2 > k {
        assert(!selectable(items[reach(false, j, k, n)]));
    }
}


/// Which view-specific entries are enabled once a document is open: the
/// hex dump mode steps only in the hex dump, the sprite multicolor toggle
/// only in the sprites view and the charset multicolor toggle only in the
/// charset view; without a document every entry that needs one is
/// disabled.
pub proof fn law_view_entries_enabled(
    has_document: bool,
    immediate: bool,
    last_search_empty: bool,
    pane: ActivePane,
)
    ensures
        has_document ==> (!disabled_for(
            MenuAction::ToggleCharsetMulticolor,
            has_document,
            immediate,
            last_search_empty,
            pane,
        ) <==> pane == ActivePane::Charset),
        has_document ==> (!disabled_for(
            MenuAction::ToggleSpriteMulticolor,
            has_document,
            immediate,
            last_search_empty,
            pane,
        ) <==> pane == ActivePane::Sprites),
        has_document ==> (!disabled_for(
            MenuAction::HexdumpViewModeNext,
            has_document,
            immediate,
            last_search_empty,
            pane,
        ) <==> pane == ActivePane::HexDump),
        has_document ==> (!disabled_for(
            MenuAction::HexdumpViewModePrev,
            has_document,
            immediate,
            last_search_empty,
            pane,
        ) <==> pane == ActivePane::HexDump),
        forall|a: MenuAction|
            !works_without_document(a) && !has_document ==> #[trigger] disabled_for(
                a,
                has_document,
                immediate,
                last_search_empty,
                pane,
            ),
{
}

} // verus!
