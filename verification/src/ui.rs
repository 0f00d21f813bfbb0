//! Interface state that the menu and view-synchronisation rules read and
//! change: panes, cursors, the status line and the dialog to open.
use crate::document::HexdumpViewMode;
use crate::menu::{MenuAction, MenuState};
use vstd::prelude::*;

verus! {

/// The pane that has the keyboard focus.
#[derive(Clone, Copy, Debug, PartialEq, Eq, Structural)]
pub enum ActivePane {
    Disassembly,
    HexDump,
    Sprites,
    Charset,
    Blocks,
}

/// The view shown to the right of the listing.
#[derive(Clone, Copy, Debug, PartialEq, Eq, Structural)]
pub enum RightPane {
    Closed,
    HexDump,
    Sprites,
    Charset,
    Blocks,
}

/// Which comment a comment dialog edits.
#[derive(Clone, Copy, Debug, PartialEq, Eq, Structural)]
pub enum CommentKind {
    Side,
    Line,
}

/// A dialog to show, with the values it starts from.
#[derive(Clone, Debug)]
pub enum Dialog {
    /// Asks before running `action`, which would drop unsaved changes.
    Confirmation { title: String, message: String, action: MenuAction },
    /// File chooser starting in the given directory.
    Open(String),
    SaveAs,
    ExportAs,
    DocumentSettings,
    JumpToAddress,
    JumpToLine,
    /// Search box holding the previous query.
    Search(String),
    About,
    KeyboardShortcuts,
    /// Origin editor holding the current origin.
    Origin(u16),
    Settings,
    /// Comment editor holding the current comment, if any.
    Comment(Option<String>, CommentKind),
}

/// The interface state.
pub struct UiState {
    pub menu: MenuState,
    pub active_pane: ActivePane,
    pub right_pane: RightPane,
    pub cursor_index: usize,
    pub sub_cursor_index: usize,
    pub hex_cursor_index: usize,
    pub sprites_cursor_index: usize,
    pub charset_cursor_index: usize,
    /// Selected entry of the blocks overview.
    pub blocks_selected: Option<usize>,
    /// Listing line where a visual selection started.
    pub selection_start: Option<usize>,
    pub is_visual_mode: bool,
    pub status_message: String,
    pub should_quit: bool,
    pub active_dialog: Option<Dialog>,
    pub hexdump_view_mode: HexdumpViewMode,
    pub sprite_multicolor_mode: bool,
    pub charset_multicolor_mode: bool,
    /// Places jumped away from, most recent last.
    pub navigation_history: Vec<(ActivePane, usize)>,
    pub last_search_query: String,
    pub file_dialog_current_dir: String,
    /// The search prompt at the bottom of the screen is open.
    pub vim_search_active: bool,
    /// What has been typed into the search prompt.
    pub vim_search_input: String,
    /// A key has been pressed, so the start-up logo is no longer shown.
    pub dismiss_logo: bool,
}

impl UiState {
    /// The interface at start-up: the listing has the focus with its cursor
    /// on the first line, no side view is shown, nothing is selected and no
    /// dialog is open.
    pub fn new(file_dialog_current_dir: String) -> (u: UiState)
        ensures
            u.active_pane == ActivePane::Disassembly,
            u.right_pane == RightPane::Closed,
            u.cursor_index == 0,
            u.sub_cursor_index == 0,
            u.hex_cursor_index == 0,
            u.sprites_cursor_index == 0,
            u.charset_cursor_index == 0,
            u.blocks_selected is None,
            u.selection_start is None,
            !u.is_visual_mode,
            u.status_message@.len() == 0,
            !u.should_quit,
            u.active_dialog is None,
            u.hexdump_view_mode == HexdumpViewMode::ScreencodeShifted,
            !u.sprite_multicolor_mode,
            !u.charset_multicolor_mode,
            u.navigation_history@.len() == 0,
            u.last_search_query@.len() == 0,
            u.file_dialog_current_dir == file_dialog_current_dir,
            !u.vim_search_active,
            u.vim_search_input@.len() == 0,
            !u.dismiss_logo,
    {
        UiState {
            menu: MenuState::new(),
            active_pane: ActivePane::Disassembly,
            right_pane: RightPane::Closed,
            cursor_index: 0,
            sub_cursor_index: 0,
            hex_cursor_index: 0,
            sprites_cursor_index: 0,
            charset_cursor_index: 0,
            blocks_selected: None,
            selection_start: None,
            is_visual_mode: false,
            status_message: String::new(),
            should_quit: false,
            active_dialog: None,
            hexdump_view_mode: HexdumpViewMode::ScreencodeShifted,
            sprite_multicolor_mode: false,
            charset_multicolor_mode: false,
            navigation_history: Vec::new(),
            last_search_query: String::new(),
            file_dialog_current_dir,
            vim_search_active: false,
            vim_search_input: String::new(),
            dismiss_logo: false,
        }
    }

    /// Takes a key typed while the search prompt is open (see
    /// `search_prompt_handled`); returns whether to search forward for the
    /// query now stored.
    pub fn search_prompt_key(&mut self, key: PromptKey) -> (search: bool)
        ensures
            search_prompt_handled(*old(self), *final(self), key, search),
    {
        match key {
            PromptKey::Escape => {
                self.vim_search_active = false;
                self.status_message = "Ready".to_string();
                false
            },
            PromptKey::Enter => {
                self.last_search_query = self.vim_search_input.clone();
                self.vim_search_active = false;
                true
            },
            PromptKey::Backspace => {
                let _ = pop_char(&mut self.vim_search_input);
                false
            },
            PromptKey::Char(c) => {
                push_char(&mut self.vim_search_input, c);
                false
            },
            PromptKey::Other => false,
        }
    }
}

/// A key as the search prompt reads it.
#[derive(Clone, Copy, Debug, PartialEq, Eq, Structural)]
pub enum PromptKey {
    Escape,
    Enter,
    Backspace,
    Char(char),
    Other,
}

/// What a key does to the open search prompt: Escape closes it and shows
/// "Ready"; Enter closes it, stores the typed text as the search query and
/// asks for a forward search; Backspace removes the last typed character;
/// a character is appended; any other key changes nothing.
pub open spec fn search_prompt_handled(u0: UiState, u1: UiState, key: PromptKey, search: bool) -> bool {
    match key {
        PromptKey::Escape => {
            &&& u1 == UiState { vim_search_active: false, status_message: u1.status_message, ..u0 }
            &&& u1.status_message@ == "Ready"@
            &&& !search
        },
        PromptKey::Enter => {
            &&& u1 == UiState {
                vim_search_active: false,
                last_search_query: u1.last_search_query,
                ..u0
            }
            &&& u1.last_search_query@ == u0.vim_search_input@
            &&& search
        },
        PromptKey::Backspace => {
            &&& u1 == UiState { vim_search_input: u1.vim_search_input, ..u0 }
            &&& u1.vim_search_input@ == if u0.vim_search_input@.len() > 0 {
                u0.vim_search_input@.drop_last()
            } else {
                u0.vim_search_input@
            }
            &&& !search
        },
        PromptKey::Char(c) => {
            &&& u1 == UiState { vim_search_input: u1.vim_search_input, ..u0 }
            &&& u1.vim_search_input@ == u0.vim_search_input@.push(c)
            &&& !search
        },
        PromptKey::Other => u1 == u0 && !search,
    }
}

/// Appends a character to a string (`String::push`).
#[verifier::external_body]
pub(crate) fn push_char(s: &mut String, c: char)
    ensures
        final(s)@ == old(s)@.push(c),
{
    s.push(c);
}

/// Removes and returns the last character of a string (`String::pop`);
/// `None`, with the string unchanged, when it is empty.
#[verifier::external_body]
fn pop_char(s: &mut String) -> (r: Option<char>)
    ensures
        old(s)@.len() == 0 ==> r is None && final(s)@ == old(s)@,
        old(s)@.len() > 0 ==> r == Some(old(s)@.last()) && final(s)@ == old(s)@.drop_last(),
{
    s.pop()
}

} // verus!
