//! What each menu action does to the document and the interface.
//!
//! An action that needs work this library does not do itself (writing
//! files, rebuilding the listing, searching) hands it back as a
//! `MenuEffect`; rebuilding the listing is followed by `restore_cursor`.
use crate::blocks::{
    block_type_name, compressed, items_of_runs, runs_do_not_wrap, wrap16, BlockItem, BlockType,
};
use crate::commands::{edit_model, label_view, Command};
use crate::document::{HexdumpViewMode, ImmediateFormat};
use crate::listing::AddressingMode;
use crate::listing::{
    covers_address, is_first_match, line_for_address_spec, starts_at, starts_at_or_after,
    starts_with_bytes, DisassemblyLine,
};
use crate::menu::{
    action_name, first_reached, first_selectable, selected_items, works_without_document,
    MenuAction, MenuState,
};
use crate::project::ProjectSaveContext;
use crate::state::{
    analysis_installed, block_type_region_set, redone, undone, maximal_run, region_lines_fit, region_within_image,
    same_except_edits_and_history, same_except_history, AppState,
};
use crate::document::Label;
use std::collections::BTreeMap;
use crate::maps::sorted_keys;
use crate::ui::{ActivePane, CommentKind, Dialog, RightPane, UiState};
use vstd::prelude::*;

verus! {

/// The upper-case hexadecimal digit for `v` in `0..16`.
pub open spec fn hex_digit(v: int) -> char {
    if v < 10 {
        (48 + v) as char
    } else {
        (55 + v) as char
    }
}

/// `v` as four upper-case hexadecimal digits.
pub open spec fn hex4(v: u16) -> Seq<char> {
    seq![
        hex_digit(v as int / 4096),
        hex_digit((v as int / 256) % 16),
        hex_digit((v as int / 16) % 16),
        hex_digit(v as int % 16),
    ]
}

/// `prefix`, then `$` and the address in four upper-case hex digits, then
/// `suffix`.
pub open spec fn address_text(prefix: Seq<char>, addr: u16, suffix: Seq<char>) -> Seq<char> {
    prefix + seq!['$'] + hex4(addr) + suffix
}

fn hex_char(v: u16) -> (c: char)
    requires
        v < 16,
    ensures
        c == hex_digit(v as int),
{
    if v < 10 {
        ((48 + v) as u8) as char
    } else {
        ((55 + v) as u8) as char
    }
}

/// `prefix`, `$`, the address in four upper-case hex digits and `suffix`
/// (see `address_text`).
fn format_address(prefix: &str, addr: u16, suffix: &str) -> (r: String)
    ensures
        r@ == address_text(prefix@, addr, suffix@),
{
    let mut r = prefix.to_string();
    crate::ui::push_char(&mut r, '$');
    crate::ui::push_char(&mut r, hex_char(addr / 4096));
    crate::ui::push_char(&mut r, hex_char((addr / 256) % 16));
    crate::ui::push_char(&mut r, hex_char((addr / 16) % 16));
    crate::ui::push_char(&mut r, hex_char(addr % 16));
    r.append(suffix);
    assert(r@ =~= address_text(prefix@, addr, suffix@));
    r
}

/// `prefix` followed by `rest`.
fn joined(prefix: &str, rest: &str) -> (r: String)
    ensures
        r@ == prefix@ + rest@,
{
    let mut s = prefix.to_string();
    s.append(rest);
    s
}

/// The status text shown when an action starts.
pub open spec fn action_status(a: MenuAction) -> Seq<char> {
    "Action: "@ + action_name(a)
}

/// How to put the cursor back once the listing has been rebuilt.
#[derive(Clone, Copy, Debug, PartialEq, Eq, Structural)]
pub enum CursorRestore {
    /// On the first line that covers the address, when there is one.
    OnAddress(u16),
    /// After an analysis: on the line covering the address the cursor was
    /// on, else on the line for that address, else on the line for the
    /// origin; without such an address, on the line for the origin.
    AfterAnalysis(Option<u16>),
}

/// Work a menu action leaves to the host.
#[derive(Clone, Debug, PartialEq, Eq)]
pub enum MenuEffect {
    Done,
    /// Rebuild the listing from the document, then restore the cursor.
    Relist(Option<CursorRestore>),
    /// Save the project to its file (see `AppState::prepare_save`).
    SaveProject,
    /// Export the listing as assembly source to the given file.
    ExportProject(String),
    /// Find the next (`true`) or previous match of the last search.
    Search(bool),
}

/// Some line of `lines` satisfies `p`.
pub open spec fn any_line(lines: Seq<DisassemblyLine>, p: spec_fn(DisassemblyLine) -> bool) -> bool {
    exists|j: int| 0 <= j < lines.len() && #[trigger] p(lines[j])
}

/// `r` is the line `restore_cursor` puts the cursor on (`None`: the cursor
/// stays).
pub open spec fn restored_line(
    lines: Seq<DisassemblyLine>,
    origin: u16,
    how: CursorRestore,
    r: Option<usize>,
) -> bool {
    match how {
        CursorRestore::OnAddress(a) => is_first_match(lines, covers_address(a), r),
        CursorRestore::AfterAnalysis(Some(a)) => if any_line(lines, covers_address(a)) {
            is_first_match(lines, covers_address(a), r)
        } else if any_line(lines, starts_at_or_after(a)) {
            line_for_address_spec(lines, a, r)
        } else {
            line_for_address_spec(lines, origin, r)
        },
        CursorRestore::AfterAnalysis(None) => line_for_address_spec(lines, origin, r),
    }
}

/// Puts the cursor back after the listing was rebuilt (see
/// `restored_line`); every other part of the interface stays.
pub fn restore_cursor(app: &AppState, ui: &mut UiState, how: CursorRestore)
    ensures
        exists|r: Option<usize>|
            restored_line(app.disassembly@, app.origin, how, r) && *final(ui) == match r {
                Some(i) => UiState { cursor_index: i, ..*old(ui) },
                None => *old(ui),
            },
{
    let r = match how {
        CursorRestore::OnAddress(a) => app.get_line_index_containing_address(a),
        CursorRestore::AfterAnalysis(Some(a)) => {
            let c = app.get_line_index_containing_address(a);
            proof {
                let lines = app.disassembly@;
                if any_line(lines, covers_address(a)) {
                    let j = choose|j: int| 0 <= j < lines.len() && #[trigger] covers_address(a)(lines[j]);
                    assert(covers_address(a)(lines[j]));
                }
            }
            match c {
                Some(i) => Some(i),
                None => {
                    let f = app.get_line_index_for_address(a);
                    proof {
                        let lines = app.disassembly@;
                        match f {
                            Some(i) => {
                                assert(starts_at_or_after(a)(lines[i as int]));
                            },
                            None => {
                                if any_line(lines, starts_at_or_after(a)) {
                                    let j = choose|j: int| 0 <= j < lines.len() && #[trigger] starts_at_or_after(a)(lines[j]);
                                    assert(starts_at_or_after(a)(lines[j]));
                                }
                            },
                        }
                    }
                    match f {
                        Some(i) => Some(i),
                        None => app.get_line_index_for_address(app.origin),
                    }
                },
            }
        },
        CursorRestore::AfterAnalysis(None) => app.get_line_index_for_address(app.origin),
    };
    assert(restored_line(app.disassembly@, app.origin, how, r));
    match r {
        Some(i) => {
            ui.cursor_index = i;
        },
        None => {},
    }
}

/// `u1` is `u0` with the given dialog and status text.
pub open spec fn shows(u0: UiState, u1: UiState, dialog: Option<Dialog>, status: Seq<char>) -> bool {
    &&& u1 == UiState { active_dialog: dialog, status_message: u1.status_message, ..u0 }
    &&& u1.status_message@ == status
}

/// The dialog and status text of the actions that only open a dialog
/// (saving and exporting open one when no file name is known yet).
pub open spec fn dialog_of(action: MenuAction, app: &AppState, ui: UiState) -> Option<
    (Dialog, Seq<char>),
> {
    match action {
        MenuAction::Open => Some((Dialog::Open(ui.file_dialog_current_dir), "Select a file to open"@)),
        MenuAction::Save if app.project_path is None => Some(
            (Dialog::SaveAs, "Enter Project filename"@),
        ),
        MenuAction::SaveAs => Some((Dialog::SaveAs, "Enter Project filename"@)),
        MenuAction::ExportProject if app.export_path is None => Some(
            (Dialog::ExportAs, "Enter .asm filename"@),
        ),
        MenuAction::ExportProjectAs => Some((Dialog::ExportAs, "Enter .asm filename"@)),
        MenuAction::DocumentSettings => Some((Dialog::DocumentSettings, "Document Settings"@)),
        MenuAction::JumpToAddress => Some((Dialog::JumpToAddress, "Enter address (Hex)"@)),
        MenuAction::JumpToLine => Some((Dialog::JumpToLine, "Enter Line Number (Dec)"@)),
        MenuAction::Search => Some((Dialog::Search(ui.last_search_query), "Search..."@)),
        MenuAction::About => Some((Dialog::About, "About Regenerator 2000"@)),
        MenuAction::KeyboardShortcuts => Some((Dialog::KeyboardShortcuts, "Keyboard Shortcuts"@)),
        MenuAction::ChangeOrigin => Some((Dialog::Origin(app.origin), "Enter new origin (Hex)"@)),
        MenuAction::SystemSettings => Some((Dialog::Settings, "Settings"@)),
        _ => None,
    }
}

fn open_dialog(app: &AppState, ui: &mut UiState, action: MenuAction)
    requires
        dialog_of(action, app, *old(ui)) is Some,
    ensures
        match dialog_of(action, app, *old(ui)) {
            Some((d, t)) => shows(*old(ui), *final(ui), Some(d), t),
            None => false,
        },
{
    let (dialog, text) = match action {
        MenuAction::Open => (Dialog::Open(ui.file_dialog_current_dir.clone()), "Select a file to open"),
        MenuAction::Save | MenuAction::SaveAs => (Dialog::SaveAs, "Enter Project filename"),
        MenuAction::ExportProject | MenuAction::ExportProjectAs => (
            Dialog::ExportAs,
            "Enter .asm filename",
        ),
        MenuAction::DocumentSettings => (Dialog::DocumentSettings, "Document Settings"),
        MenuAction::JumpToAddress => (Dialog::JumpToAddress, "Enter address (Hex)"),
        MenuAction::JumpToLine => (Dialog::JumpToLine, "Enter Line Number (Dec)"),
        MenuAction::Search => (Dialog::Search(ui.last_search_query.clone()), "Search..."),
        MenuAction::About => (Dialog::About, "About Regenerator 2000"),
        MenuAction::KeyboardShortcuts => (Dialog::KeyboardShortcuts, "Keyboard Shortcuts"),
        MenuAction::ChangeOrigin => (Dialog::Origin(app.origin), "Enter new origin (Hex)"),
        _ => (Dialog::Settings, "Settings"),
    };
    ui.active_dialog = Some(dialog);
    ui.status_message = text.to_string();
}

/// The view, the pane to focus, and the status texts (shown, hidden) of a
/// right-pane toggle.
pub open spec fn toggle_of(action: MenuAction) -> Option<(RightPane, ActivePane, Seq<char>, Seq<char>)> {
    match action {
        MenuAction::ToggleHexDump => Some(
            (RightPane::HexDump, ActivePane::HexDump, "Hex Dump View Shown"@, "Hex Dump View Hidden"@),
        ),
        MenuAction::ToggleSpritesView => Some(
            (RightPane::Sprites, ActivePane::Sprites, "Sprites View Shown"@, "Sprites View Hidden"@),
        ),
        MenuAction::ToggleCharsetView => Some(
            (RightPane::Charset, ActivePane::Charset, "Charset View Shown"@, "Charset View Hidden"@),
        ),
        MenuAction::ToggleBlocksView => Some(
            (RightPane::Blocks, ActivePane::Blocks, "Blocks View Shown"@, "Blocks View Hidden"@),
        ),
        _ => None,
    }
}

/// A shown view is hidden (the listing takes the focus back from it); a
/// hidden one replaces the right pane and takes the focus.
pub open spec fn pane_toggled(u0: UiState, u1: UiState, action: MenuAction) -> bool {
    let (view, focus, shown, hidden) = toggle_of(action)->0;
    if u0.right_pane == view {
        &&& u1 == UiState {
            right_pane: RightPane::Closed,
            active_pane: if u0.active_pane == focus {
                ActivePane::Disassembly
            } else {
                u0.active_pane
            },
            status_message: u1.status_message,
            ..u0
        }
        &&& u1.status_message@ == hidden
    } else {
        &&& u1 == UiState {
            right_pane: view,
            active_pane: focus,
            status_message: u1.status_message,
            ..u0
        }
        &&& u1.status_message@ == shown
    }
}

fn toggle_pane(ui: &mut UiState, action: MenuAction)
    requires
        toggle_of(action) is Some,
    ensures
        pane_toggled(*old(ui), *final(ui), action),
{
    let (view, focus, shown, hidden) = match action {
        MenuAction::ToggleHexDump => (
            RightPane::HexDump,
            ActivePane::HexDump,
            "Hex Dump View Shown",
            "Hex Dump View Hidden",
        ),
        MenuAction::ToggleSpritesView => (
            RightPane::Sprites,
            ActivePane::Sprites,
            "Sprites View Shown",
            "Sprites View Hidden",
        ),
        MenuAction::ToggleCharsetView => (
            RightPane::Charset,
            ActivePane::Charset,
            "Charset View Shown",
            "Charset View Hidden",
        ),
        _ => (RightPane::Blocks, ActivePane::Blocks, "Blocks View Shown", "Blocks View Hidden"),
    };
    if ui.right_pane == view {
        ui.right_pane = RightPane::Closed;
        ui.status_message = hidden.to_string();
        if ui.active_pane == focus {
            ui.active_pane = ActivePane::Disassembly;
        }
    } else {
        ui.right_pane = view;
        ui.active_pane = focus;
        ui.status_message = shown.to_string();
    }
}

/// The hex dump character set after `m`, in the order screen codes
/// (shifted, unshifted), then PETSCII (shifted, unshifted).
pub open spec fn next_hexdump_mode(m: HexdumpViewMode) -> HexdumpViewMode {
    match m {
        HexdumpViewMode::ScreencodeShifted => HexdumpViewMode::ScreencodeUnshifted,
        HexdumpViewMode::ScreencodeUnshifted => HexdumpViewMode::PETSCIIShifted,
        HexdumpViewMode::PETSCIIShifted => HexdumpViewMode::PETSCIIUnshifted,
        HexdumpViewMode::PETSCIIUnshifted => HexdumpViewMode::ScreencodeShifted,
    }
}

/// The hex dump character set before `m` (the inverse of
/// `next_hexdump_mode`).
pub open spec fn previous_hexdump_mode(m: HexdumpViewMode) -> HexdumpViewMode {
    match m {
        HexdumpViewMode::ScreencodeShifted => HexdumpViewMode::PETSCIIUnshifted,
        HexdumpViewMode::ScreencodeUnshifted => HexdumpViewMode::ScreencodeShifted,
        HexdumpViewMode::PETSCIIShifted => HexdumpViewMode::ScreencodeUnshifted,
        HexdumpViewMode::PETSCIIUnshifted => HexdumpViewMode::PETSCIIShifted,
    }
}

/// The status text naming hex dump character set `m`.
pub open spec fn hexdump_status(m: HexdumpViewMode) -> Seq<char> {
    "Hex Dump: "@ + match m {
        HexdumpViewMode::PETSCIIUnshifted => "Unshifted (PETSCII)"@,
        HexdumpViewMode::PETSCIIShifted => "Shifted (PETSCII)"@,
        HexdumpViewMode::ScreencodeShifted => "Shifted (Screencode)"@,
        HexdumpViewMode::ScreencodeUnshifted => "Unshifted (Screencode)"@,
    }
}

/// Shows the hex dump character set `mode` in the status line.
pub fn update_hexdump_status(ui: &mut UiState, mode: HexdumpViewMode)
    ensures
        shows(*old(ui), *final(ui), old(ui).active_dialog, hexdump_status(mode)),
{
    let name = match mode {
        HexdumpViewMode::PETSCIIUnshifted => "Unshifted (PETSCII)",
        HexdumpViewMode::PETSCIIShifted => "Shifted (PETSCII)",
        HexdumpViewMode::ScreencodeShifted => "Shifted (Screencode)",
        HexdumpViewMode::ScreencodeUnshifted => "Unshifted (Screencode)",
    };
    ui.status_message = joined("Hex Dump: ", name);
}

fn cycle_hexdump_mode(ui: &mut UiState, forward: bool)
    ensures
        ({
            let m = if forward {
                next_hexdump_mode(old(ui).hexdump_view_mode)
            } else {
                previous_hexdump_mode(old(ui).hexdump_view_mode)
            };
            shows(
                UiState { hexdump_view_mode: m, ..*old(ui) },
                *final(ui),
                old(ui).active_dialog,
                hexdump_status(m),
            )
        }),
{
    let m = ui.hexdump_view_mode;
    let new_mode = if forward {
        match m {
            HexdumpViewMode::ScreencodeShifted => HexdumpViewMode::ScreencodeUnshifted,
            HexdumpViewMode::ScreencodeUnshifted => HexdumpViewMode::PETSCIIShifted,
            HexdumpViewMode::PETSCIIShifted => HexdumpViewMode::PETSCIIUnshifted,
            HexdumpViewMode::PETSCIIUnshifted => HexdumpViewMode::ScreencodeShifted,
        }
    } else {
        match m {
            HexdumpViewMode::ScreencodeShifted => HexdumpViewMode::PETSCIIUnshifted,
            HexdumpViewMode::ScreencodeUnshifted => HexdumpViewMode::ScreencodeShifted,
            HexdumpViewMode::PETSCIIShifted => HexdumpViewMode::ScreencodeUnshifted,
            HexdumpViewMode::PETSCIIUnshifted => HexdumpViewMode::PETSCIIShifted,
        }
    };
    ui.hexdump_view_mode = new_mode;
    update_hexdump_status(ui, new_mode);
}

/// The multicolor toggles: the flag flips and the status tells the new
/// state.
pub open spec fn multicolor_toggled(u0: UiState, u1: UiState, sprites: bool) -> bool {
    if sprites {
        &&& u1 == UiState {
            sprite_multicolor_mode: !u0.sprite_multicolor_mode,
            status_message: u1.status_message,
            ..u0
        }
        &&& u1.status_message@ == if u1.sprite_multicolor_mode {
            "Sprites: Multicolor Mode ON"@
        } else {
            "Sprites: Single Color Mode"@
        }
    } else {
        &&& u1 == UiState {
            charset_multicolor_mode: !u0.charset_multicolor_mode,
            status_message: u1.status_message,
            ..u0
        }
        &&& u1.status_message@ == if u1.charset_multicolor_mode {
            "Charset: Multicolor Mode ON"@
        } else {
            "Charset: Single Color Mode"@
        }
    }
}

fn toggle_multicolor(ui: &mut UiState, sprites: bool)
    ensures
        multicolor_toggled(*old(ui), *final(ui), sprites),
{
    if sprites {
        ui.sprite_multicolor_mode = !ui.sprite_multicolor_mode;
        ui.status_message = if ui.sprite_multicolor_mode {
            "Sprites: Multicolor Mode ON".to_string()
        } else {
            "Sprites: Single Color Mode".to_string()
        };
    } else {
        ui.charset_multicolor_mode = !ui.charset_multicolor_mode;
        ui.status_message = if ui.charset_multicolor_mode {
            "Charset: Multicolor Mode ON".to_string()
        } else {
            "Charset: Single Color Mode".to_string()
        };
    }
}

/// The comment dialog for the cursor line: the line's user comment of the
/// given kind, with the status naming its address. Nothing happens
/// without a cursor line.
pub open spec fn comment_dialog_opened(app: &AppState, u0: UiState, u1: UiState, kind: CommentKind) -> bool {
    if u0.cursor_index < app.disassembly@.len() {
        let addr = app.disassembly@[u0.cursor_index as int].address;
        let comments = match kind {
            CommentKind::Side => app.user_side_comments@,
            CommentKind::Line => app.user_line_comments@,
        };
        let current = if comments.contains_key(addr) {
            Some(comments[addr])
        } else {
            None
        };
        shows(
            u0,
            u1,
            Some(Dialog::Comment(current, kind)),
            address_text(
                match kind {
                    CommentKind::Side => "Edit Side Comment at "@,
                    CommentKind::Line => "Edit Line Comment at "@,
                },
                addr,
                ""@,
            ),
        )
    } else {
        u1 == u0
    }
}

fn open_comment_dialog(app: &AppState, ui: &mut UiState, kind: CommentKind)
    ensures
        comment_dialog_opened(app, *old(ui), *final(ui), kind),
{
    broadcast use vstd::std_specs::btree::group_btree_axioms;

    if ui.cursor_index < app.disassembly.len() {
        let address = app.disassembly[ui.cursor_index].address;
        let (comments, prefix) = match kind {
            CommentKind::Side => (&app.user_side_comments, "Edit Side Comment at "),
            CommentKind::Line => (&app.user_line_comments, "Edit Line Comment at "),
        };
        let current = match comments.get(&address) {
            Some(c) => Some(c.clone()),
            None => None,
        };
        ui.active_dialog = Some(Dialog::Comment(current, kind));
        ui.status_message = format_address(prefix, address, "");
    }
}

/// The signed value of a branch offset byte.
pub open spec fn signed_offset(b: u8) -> int {
    if b < 128 {
        b as int
    } else {
        b as int - 256
    }
}

/// The address an instruction's operand names: absolute and indirect
/// operands give their 16-bit address, branches their destination, zero
/// page operands their zero page address.
pub open spec fn operand_target(l: DisassemblyLine) -> Option<u16> {
    let b = l.bytes@;
    match l.opcode {
        None => None,
        Some(op) => match op.mode {
            AddressingMode::Absolute | AddressingMode::AbsoluteX | AddressingMode::AbsoluteY
            | AddressingMode::Indirect => if b.len() >= 3 {
                Some((b[1] + 256 * b[2]) as u16)
            } else {
                None
            },
            AddressingMode::Relative => if b.len() >= 2 {
                Some(wrap16(l.address + 2 + signed_offset(b[1])) as u16)
            } else {
                None
            },
            AddressingMode::ZeroPage | AddressingMode::ZeroPageX | AddressingMode::ZeroPageY
            | AddressingMode::IndirectX | AddressingMode::IndirectY => if b.len() >= 2 {
                Some(b[1] as u16)
            } else {
                None
            },
            _ => None,
        },
    }
}

/// First address of hex dump row `row` (rows start at multiples of 16).
pub open spec fn hex_row_address(origin: u16, row: usize) -> int {
    origin - origin % 16 + row * 16
}

/// Address of sprite `index` (sprites start at multiples of 64 from the
/// first one at or after the origin).
pub open spec fn sprite_address(origin: u16, index: usize) -> int {
    origin + (64 - origin % 64) % 64 + index * 64
}

/// Address of character `index` (the character set starts at the 1 KiB
/// boundary at or below the origin; eight bytes per character).
pub open spec fn charset_address(origin: u16, index: usize) -> int {
    (origin / 1024) * 1024 + index * 8
}

/// The cursor positions of the side views give addresses that fit in a
/// machine word.
pub open spec fn view_addresses_fit(app: &AppState, ui: UiState) -> bool {
    &&& hex_row_address(app.origin, ui.hex_cursor_index) <= usize::MAX
    &&& sprite_address(app.origin, ui.sprites_cursor_index) <= usize::MAX
    &&& charset_address(app.origin, ui.charset_cursor_index) <= usize::MAX
}

/// The address under the focused side view's cursor fits in a machine
/// word (the listing and the overview have no such address).
pub open spec fn pane_address_fits(app: &AppState, ui: UiState) -> bool {
    match ui.active_pane {
        ActivePane::HexDump => hex_row_address(app.origin, ui.hex_cursor_index) <= usize::MAX,
        ActivePane::Sprites => sprite_address(app.origin, ui.sprites_cursor_index) <= usize::MAX,
        ActivePane::Charset => charset_address(app.origin, ui.charset_cursor_index) <= usize::MAX,
        _ => true,
    }
}

/// The blocks overview of the document.
pub open spec fn overview(app: &AppState) -> Seq<BlockItem> {
    items_of_runs(
        compressed(app.block_types@, app.collapsed_blocks@),
        app.splitters@,
        app.origin,
        compressed(app.block_types@, app.collapsed_blocks@).len(),
    )
}

/// The blocks overview can be built (no run wraps past `$FFFF`).
pub open spec fn overview_ready(app: &AppState) -> bool {
    runs_do_not_wrap(compressed(app.block_types@, app.collapsed_blocks@), app.origin)
}

/// The address "jump to operand" goes to from the focused pane: the
/// operand of the cursor line, the start of the hex row, sprite or
/// character under the cursor, or the start of the selected overview entry.
pub open spec fn jump_target(app: &AppState, ui: UiState) -> Option<u16> {
    match ui.active_pane {
        ActivePane::Disassembly => if ui.cursor_index < app.disassembly@.len() {
            operand_target(app.disassembly@[ui.cursor_index as int])
        } else {
            None
        },
        ActivePane::HexDump => Some(wrap16(hex_row_address(app.origin, ui.hex_cursor_index)) as u16),
        ActivePane::Sprites => Some(
            wrap16(sprite_address(app.origin, ui.sprites_cursor_index)) as u16,
        ),
        ActivePane::Charset => Some(
            wrap16(charset_address(app.origin, ui.charset_cursor_index)) as u16,
        ),
        ActivePane::Blocks => {
            let items = overview(app);
            let idx = match ui.blocks_selected {
                Some(i) => i as int,
                None => 0,
            };
            if idx < items.len() {
                match items[idx] {
                    BlockItem::Block { start, .. } => Some(wrap16(app.origin + start) as u16),
                    BlockItem::Splitter(a) => Some(a),
                }
            } else {
                None
            }
        },
    }
}

fn operand_address(l: &DisassemblyLine) -> (r: Option<u16>)
    ensures
        r == operand_target(*l),
{
    let n = l.bytes.len();
    match &l.opcode {
        None => None,
        Some(op) => match op.mode {
            AddressingMode::Absolute | AddressingMode::AbsoluteX | AddressingMode::AbsoluteY
            | AddressingMode::Indirect => if n >= 3 {
                Some((l.bytes[2] as u16) * 256 + (l.bytes[1] as u16))
            } else {
                None
            },
            AddressingMode::Relative => if n >= 2 {
                let b = l.bytes[1];
                let base = l.address.wrapping_add(2);
                let r = if b < 128 {
                    base.wrapping_add(b as u16)
                } else {
                    base.wrapping_sub(256 - (b as u16))
                };
                Some(r)
            } else {
                None
            },
            AddressingMode::ZeroPage | AddressingMode::ZeroPageX | AddressingMode::ZeroPageY
            | AddressingMode::IndirectX | AddressingMode::IndirectY => if n >= 2 {
                Some(l.bytes[1] as u16)
            } else {
                None
            },
            _ => None,
        },
    }
}

/// The address "jump to operand" goes to (see `jump_target`).
#[verifier::spinoff_prover]
#[verifier::rlimit(40)]
fn jump_target_address(app: &AppState, ui: &UiState) -> (r: Option<u16>)
    requires
        ui.active_pane == ActivePane::Blocks ==> overview_ready(app),
        pane_address_fits(app, *ui),
    ensures
        r == jump_target(app, *ui),
{
    match ui.active_pane {
        ActivePane::Disassembly => {
            if ui.cursor_index < app.disassembly.len() {
                operand_address(&app.disassembly[ui.cursor_index])
            } else {
                None
            }
        },
        ActivePane::HexDump => {
            let origin = app.origin as usize;
            let aligned = origin - origin % 16;
            let a = aligned + ui.hex_cursor_index * 16;
            proof {
                crate::blocks::lemma_trunc16(a);
            }
            Some(a as u16)
        },
        ActivePane::Sprites => {
            let origin = app.origin as usize;
            let padding = (64 - origin % 64) % 64;
            let a = origin + padding + ui.sprites_cursor_index * 64;
            proof {
                crate::blocks::lemma_trunc16(a);
            }
            Some(a as u16)
        },
        ActivePane::Charset => {
            let origin = app.origin as usize;
            let a = (origin / 1024) * 1024 + ui.charset_cursor_index * 8;
            proof {
                crate::blocks::lemma_trunc16(a);
            }
            Some(a as u16)
        },
        ActivePane::Blocks => {
            let items = app.get_blocks_view_items();
            let idx = match ui.blocks_selected {
                Some(i) => i,
                None => 0,
            };
            if idx < items.len() {
                match items[idx] {
                    BlockItem::Block { start, .. } => {
                        let r = app.origin.wrapping_add(start);
                        Some(r)
                    },
                    BlockItem::Splitter(a) => Some(a),
                }
            } else {
                None
            }
        },
    }
}

/// Jumping to `target`: when a line covers it, the cursor moves there (the
/// listing takes the focus, the sub-line selection resets and the old
/// place is remembered); otherwise the status says it was not found.
/// Without a target only the listing reports it.
pub open spec fn jumped(app: &AppState, u0: UiState, u1: UiState, target: Option<u16>) -> bool {
    match target {
        Some(a) => if any_line(app.disassembly@, covers_address(a)) {
            exists|i: usize|
                is_first_match(app.disassembly@, covers_address(a), Some(i)) && u1 == UiState {
                    cursor_index: i,
                    active_pane: ActivePane::Disassembly,
                    sub_cursor_index: 0,
                    navigation_history: u1.navigation_history,
                    status_message: u1.status_message,
                    ..u0
                } && u1.navigation_history@ == u0.navigation_history@.push(
                    (ActivePane::Disassembly, u0.cursor_index),
                ) && u1.status_message@ == address_text("Jumped to "@, a, ""@)
        } else {
            shows(u0, u1, u0.active_dialog, address_text("Address "@, a, " not found"@))
        },
        None => if u0.active_pane == ActivePane::Disassembly {
            shows(u0, u1, u0.active_dialog, "No target address"@)
        } else {
            u1 == u0
        },
    }
}

fn jump_to_operand(app: &AppState, ui: &mut UiState)
    requires
        old(ui).active_pane == ActivePane::Blocks ==> overview_ready(app),
        pane_address_fits(app, *old(ui)),
    ensures
        jumped(app, *old(ui), *final(ui), jump_target(app, *old(ui))),
{
    let target = jump_target_address(app, ui);
    match target {
        Some(addr) => {
            let found = app.get_line_index_containing_address(addr);
            proof {
                let lines = app.disassembly@;
                if any_line(lines, covers_address(addr)) {
                    let j = choose|j: int| 0 <= j < lines.len() && #[trigger] covers_address(addr)(lines[j]);
                    assert(covers_address(addr)(lines[j]));
                }
            }
            match found {
                Some(idx) => {
                    ui.navigation_history.push((ActivePane::Disassembly, ui.cursor_index));
                    ui.cursor_index = idx;
                    ui.active_pane = ActivePane::Disassembly;
                    ui.sub_cursor_index = 0;
                    ui.status_message = format_address("Jumped to ", addr, "");
                },
                None => {
                    ui.status_message = format_address("Address ", addr, " not found");
                },
            }
        },
        None => {
            if ui.active_pane == ActivePane::Disassembly {
                ui.status_message = "No target address".to_string();
            }
        },
    }
}

/// The document after `c` was applied and recorded in the history; with
/// `invalidate`, a saved position among the dropped undone commands
/// becomes unreachable (`usize::MAX`).
pub open spec fn recorded(a0: &AppState, a1: &AppState, c: Command, invalidate: bool) -> bool {
    &&& edit_model(a1) == c.applied(edit_model(a0))
    &&& a1.undo_stack.commands() == a0.undo_stack.commands().take(a0.undo_stack.pointer() as int).push(c)
    &&& a1.undo_stack.pointer() == a0.undo_stack.pointer() + 1
    &&& a1.last_saved_pointer == if invalidate && a0.undo_stack.pointer() < a0.last_saved_pointer {
        usize::MAX
    } else {
        a0.last_saved_pointer
    }
    &&& same_except_edits_and_history(a0, &AppState { last_saved_pointer: a0.last_saved_pointer, ..*a1 })
}

fn record_edit(app: &mut AppState, c: Command, invalidate: bool)
    ensures
        recorded(old(app), final(app), c, invalidate),
        c.records(edit_model(old(app))) ==> crate::state::last_edit_consistent(final(app)),
{
    let ghost before = *app;
    c.apply(app);
    if invalidate {
        app.push_command(c);
    } else {
        app.undo_stack.push(c);
    }
    proof {
        if c.records(edit_model(&before)) {
            crate::state::law_recorded_edit_consistent(c, before, *app);
        }
    }
}

/// Toggling a splitter: in the blocks overview, a selected splitter entry
/// is removed; in the listing, the splitter at the cursor line's address
/// is added or removed. Both are recorded edits.
pub open spec fn splitter_toggled(
    a0: &AppState,
    u0: UiState,
    a1: &AppState,
    u1: UiState,
    e: MenuEffect,
) -> bool {
    let lines = a0.disassembly@;
    let unchanged = *a1 == *a0 && u1 == u0 && e == MenuEffect::Done;
    if u0.active_pane == ActivePane::Blocks {
        let items = overview(a0);
        match u0.blocks_selected {
            Some(i) if i < items.len() => match items[i as int] {
                BlockItem::Splitter(addr) => {
                    &&& recorded(a0, a1, Command::ToggleSplitter { address: addr }, true)
                    &&& shows(u0, u1, u0.active_dialog, address_text("Removed splitter at "@, addr, ""@))
                    &&& e == MenuEffect::Relist(None)
                },
                _ => unchanged,
            },
            _ => unchanged,
        }
    } else if u0.active_pane == ActivePane::Disassembly && u0.cursor_index < lines.len() {
        let addr = lines[u0.cursor_index as int].address;
        &&& recorded(a0, a1, Command::ToggleSplitter { address: addr }, true)
        &&& shows(u0, u1, u0.active_dialog, address_text("Toggled splitter at "@, addr, ""@))
        &&& e == MenuEffect::Relist(None)
    } else {
        unchanged
    }
}

fn toggle_splitter_action(app: &mut AppState, ui: &mut UiState) -> (e: MenuEffect)
    requires
        old(ui).active_pane == ActivePane::Blocks ==> overview_ready(old(app)),
    ensures
        splitter_toggled(old(app), *old(ui), final(app), *final(ui), e),
{
    if ui.active_pane == ActivePane::Blocks {
        let items = app.get_blocks_view_items();
        match ui.blocks_selected {
            Some(idx) => {
                if idx < items.len() {
                    match items[idx] {
                        BlockItem::Splitter(addr) => {
                            record_edit(app, Command::ToggleSplitter { address: addr }, true);
                            ui.status_message = format_address("Removed splitter at ", addr, "");
                            return MenuEffect::Relist(None);
                        },
                        _ => {},
                    }
                }
            },
            None => {},
        }
        MenuEffect::Done
    } else if ui.active_pane == ActivePane::Disassembly && ui.cursor_index < app.disassembly.len() {
        let addr = app.disassembly[ui.cursor_index].address;
        record_edit(app, Command::ToggleSplitter { address: addr }, true);
        ui.status_message = format_address("Toggled splitter at ", addr, "");
        MenuEffect::Relist(None)
    } else {
        MenuEffect::Done
    }
}

/// The immediate format after (`forward`) or before `f`; the negative
/// decimal form is offered only for values above 128.
pub open spec fn cycled_format(f: ImmediateFormat, value: u8, forward: bool) -> ImmediateFormat {
    if forward {
        match f {
            ImmediateFormat::Hex => ImmediateFormat::InvertedHex,
            ImmediateFormat::InvertedHex => ImmediateFormat::Decimal,
            ImmediateFormat::Decimal => if value <= 128 {
                ImmediateFormat::Binary
            } else {
                ImmediateFormat::NegativeDecimal
            },
            ImmediateFormat::NegativeDecimal => ImmediateFormat::Binary,
            ImmediateFormat::Binary => ImmediateFormat::InvertedBinary,
            ImmediateFormat::InvertedBinary => ImmediateFormat::Hex,
        }
    } else {
        match f {
            ImmediateFormat::Hex => ImmediateFormat::InvertedBinary,
            ImmediateFormat::InvertedBinary => ImmediateFormat::Binary,
            ImmediateFormat::Binary => if value <= 128 {
                ImmediateFormat::Decimal
            } else {
                ImmediateFormat::NegativeDecimal
            },
            ImmediateFormat::NegativeDecimal => ImmediateFormat::Decimal,
            ImmediateFormat::Decimal => ImmediateFormat::InvertedHex,
            ImmediateFormat::InvertedHex => ImmediateFormat::Hex,
        }
    }
}

/// Cycling the immediate format of the cursor line, when it is an
/// immediate-mode instruction: a recorded edit (the saved position is
/// kept) from the current format (hex when none is set) to the next one.
pub open spec fn format_cycled(
    a0: &AppState,
    u0: UiState,
    a1: &AppState,
    u1: UiState,
    e: MenuEffect,
    forward: bool,
) -> bool {
    let lines = a0.disassembly@;
    if u0.cursor_index < lines.len() && (lines[u0.cursor_index as int].opcode matches Some(op)
        && op.mode == AddressingMode::Immediate) {
        let l = lines[u0.cursor_index as int];
        let value = if l.bytes@.len() > 1 {
            l.bytes@[1]
        } else {
            0u8
        };
        let current = if a0.immediate_value_formats@.contains_key(l.address) {
            a0.immediate_value_formats@[l.address]
        } else {
            ImmediateFormat::Hex
        };
        &&& recorded(
            a0,
            a1,
            Command::SetImmediateFormat {
                address: l.address,
                new_format: Some(cycled_format(current, value, forward)),
                old_format: Some(current),
            },
            false,
        )
        &&& u1 == u0
        &&& e == MenuEffect::Relist(None)
    } else {
        *a1 == *a0 && u1 == u0 && e == MenuEffect::Done
    }
}

fn cycle_immediate_format(app: &mut AppState, ui: &UiState, forward: bool) -> (e: MenuEffect)
    ensures
        format_cycled(old(app), *ui, final(app), *ui, e, forward),
{
    broadcast use vstd::std_specs::btree::group_btree_axioms;

    if ui.cursor_index >= app.disassembly.len() {
        return MenuEffect::Done;
    }
    let line = &app.disassembly[ui.cursor_index];
    let immediate = match &line.opcode {
        Some(op) => op.mode == AddressingMode::Immediate,
        None => false,
    };
    if !immediate {
        return MenuEffect::Done;
    }
    let address = line.address;
    let value = if line.bytes.len() > 1 {
        line.bytes[1]
    } else {
        0
    };
    let current = match app.immediate_value_formats.get(&address) {
        Some(f) => *f,
        None => ImmediateFormat::Hex,
    };
    let next = if forward {
        match current {
            ImmediateFormat::Hex => ImmediateFormat::InvertedHex,
            ImmediateFormat::InvertedHex => ImmediateFormat::Decimal,
            ImmediateFormat::Decimal => if value <= 128 {
                ImmediateFormat::Binary
            } else {
                ImmediateFormat::NegativeDecimal
            },
            ImmediateFormat::NegativeDecimal => ImmediateFormat::Binary,
            ImmediateFormat::Binary => ImmediateFormat::InvertedBinary,
            ImmediateFormat::InvertedBinary => ImmediateFormat::Hex,
        }
    } else {
        match current {
            ImmediateFormat::Hex => ImmediateFormat::InvertedBinary,
            ImmediateFormat::InvertedBinary => ImmediateFormat::Binary,
            ImmediateFormat::Binary => if value <= 128 {
                ImmediateFormat::Decimal
            } else {
                ImmediateFormat::NegativeDecimal
            },
            ImmediateFormat::NegativeDecimal => ImmediateFormat::Decimal,
            ImmediateFormat::Decimal => ImmediateFormat::InvertedHex,
            ImmediateFormat::InvertedHex => ImmediateFormat::Hex,
        }
    };
    let command = Command::SetImmediateFormat {
        address,
        new_format: Some(next),
        old_format: Some(current),
    };
    record_edit(app, command, false);
    MenuEffect::Relist(None)
}

/// `a - b` in wrapping machine-word arithmetic.
pub open spec fn word_diff(a: int, b: int) -> int {
    if a >= b {
        a - b
    } else {
        a - b + usize::MAX + 1
    }
}

/// A collapsed range that starts at `start` (and ends at `end`, if given).
pub open spec fn collapsed_at(start: usize, end: Option<usize>) -> spec_fn((usize, usize)) -> bool {
    |r: (usize, usize)|
        r.0 == start && match end {
            Some(e) => r.1 == e,
            None => true,
        }
}

fn find_collapsed(ranges: &Vec<(usize, usize)>, start: usize, end: Option<usize>) -> (r: Option<usize>)
    ensures
        is_first_match(ranges@, collapsed_at(start, end), r),
{
    let mut i: usize = 0;
    while i < ranges.len()
        invariant
            i <= ranges@.len(),
            forall|j: int| 0 <= j < i ==> !collapsed_at(start, end)(#[trigger] ranges@[j]),
        decreases ranges@.len() - i,
    {
        let (s, e) = ranges[i];
        let hit = s == start && match end {
            Some(x) => e == x,
            None => true,
        };
        if hit {
            return Some(i);
        }
        i = i + 1;
    }
    None
}

/// Toggling the collapse of the run `(start, end)` (byte offsets): an
/// existing collapsed range equal to it is removed, else it is added; both
/// are recorded edits (the saved position is kept).
pub open spec fn run_collapse_toggled(
    a0: &AppState,
    u0: UiState,
    a1: &AppState,
    u1: UiState,
    start: usize,
    end: usize,
) -> bool {
    if any_range(a0.collapsed_blocks@, collapsed_at(start, Some(end))) {
        &&& recorded(a0, a1, Command::UncollapseBlock { range: (start, end) }, false)
        &&& shows(u0, u1, u0.active_dialog, "Block Uncollapsed"@)
    } else {
        &&& recorded(a0, a1, Command::CollapseBlock { range: (start, end) }, false)
        &&& shows(u0, u1, u0.active_dialog, "Block Collapsed"@)
    }
}

/// Some range of `ranges` satisfies `p`.
pub open spec fn any_range(ranges: Seq<(usize, usize)>, p: spec_fn((usize, usize)) -> bool) -> bool {
    exists|k: int| 0 <= k < ranges.len() && #[trigger] p(ranges[k])
}

fn toggle_run_collapse(app: &mut AppState, ui: &mut UiState, start: usize, end: usize)
    ensures
        run_collapse_toggled(old(app), *old(ui), final(app), *final(ui), start, end),
{
    let found = find_collapsed(&app.collapsed_blocks, start, Some(end));
    proof {
        let rs = old(app).collapsed_blocks@;
        if any_range(rs, collapsed_at(start, Some(end))) {
            let k = choose|k: int| 0 <= k < rs.len() && #[trigger] collapsed_at(start, Some(end))(rs[k]);
            assert(collapsed_at(start, Some(end))(rs[k]));
        }
    }
    match found {
        Some(k) => {
            let range = app.collapsed_blocks[k];
            record_edit(app, Command::UncollapseBlock { range }, false);
            ui.status_message = "Block Uncollapsed".to_string();
        },
        None => {
            record_edit(app, Command::CollapseBlock { range: (start, end) }, false);
            ui.status_message = "Block Collapsed".to_string();
        },
    }
}

/// Toggling the collapse of the run selected in the blocks overview; the
/// cursor goes back to the address it was on once the listing is rebuilt.
pub open spec fn overview_collapse_toggled(
    a0: &AppState,
    u0: UiState,
    a1: &AppState,
    u1: UiState,
    e: MenuEffect,
) -> bool {
    let lines = a0.disassembly@;
    let items = overview(a0);
    match u0.blocks_selected {
        None => *a1 == *a0 && u1 == u0 && e == MenuEffect::Done,
        Some(i) => if i < items.len() && items[i as int] is Block {
            let start = items[i as int]->start as usize;
            let end = items[i as int]->end as usize;
            &&& run_collapse_toggled(a0, u0, a1, u1, start, end)
            &&& e == MenuEffect::Relist(
                if u0.cursor_index < lines.len() {
                    Some(CursorRestore::OnAddress(lines[u0.cursor_index as int].address))
                } else {
                    None
                },
            )
        } else {
            &&& *a1 == *a0
            &&& shows(u0, u1, u0.active_dialog, "Selected item is not a block"@)
            &&& e == MenuEffect::Done
        },
    }
}

/// The image offset of the cursor line (wrapping below the origin).
pub open spec fn cursor_offset(a0: &AppState, u0: UiState) -> usize {
    word_diff(a0.disassembly@[u0.cursor_index as int].address as int, a0.origin as int) as usize
}

/// The collapse toggle of the run `[s, t]` (byte offsets) around the
/// cursor address: an expand, or a collapse that clears the selection and
/// moves the cursor to the run's first address.
pub open spec fn cursor_run_collapse_toggled(
    a0: &AppState,
    u0: UiState,
    a1: &AppState,
    u1: UiState,
    e: MenuEffect,
    s: int,
    t: int,
) -> bool {
    let first = wrap16(a0.origin + wrap16(s)) as u16;
    let last = wrap16(a0.origin + wrap16(t)) as u16;
    let so = word_diff(first as int, a0.origin as int) as usize;
    let eo = word_diff(last as int, a0.origin as int) as usize;
    if any_range(a0.collapsed_blocks@, collapsed_at(so, Some(eo))) {
        &&& run_collapse_toggled(a0, u0, a1, u1, so, eo)
        &&& e == MenuEffect::Relist(None)
    } else {
        &&& run_collapse_toggled(
            a0,
            UiState { selection_start: None, is_visual_mode: false, ..u0 },
            a1,
            u1,
            so,
            eo,
        )
        &&& e == MenuEffect::Relist(Some(CursorRestore::OnAddress(first)))
    }
}

/// Toggling a collapsed block from the listing: a collapsed block starting
/// at the cursor line is expanded; otherwise the run of equal block types
/// around the cursor address is collapsed or expanded.
pub open spec fn listing_collapse_toggled(
    a0: &AppState,
    u0: UiState,
    a1: &AppState,
    u1: UiState,
    e: MenuEffect,
) -> bool {
    let lines = a0.disassembly@;
    if u0.cursor_index < lines.len() && any_range(
        a0.collapsed_blocks@,
        collapsed_at(cursor_offset(a0, u0), None),
    ) {
        &&& exists|k: int|
            is_first_match(a0.collapsed_blocks@, collapsed_at(cursor_offset(a0, u0), None), Some(k as usize))
                && recorded(a0, a1, Command::UncollapseBlock { range: a0.collapsed_blocks@[k] }, false)
        &&& shows(u0, u1, u0.active_dialog, "Block Uncollapsed"@)
        &&& e == MenuEffect::Relist(None)
    } else {
        let address = cursor_address_of(a0, u0);
        if address < a0.origin || address - a0.origin >= a0.block_types@.len() {
            *a1 == *a0 && shows(u0, u1, u0.active_dialog, "No block found at cursor"@) && e
                == MenuEffect::Done
        } else {
            exists|s: int, t: int|
                #[trigger] cursor_run(a0, u0, s, t) && cursor_run_collapse_toggled(a0, u0, a1, u1, e, s, t)
        }
    }
}

/// The address of the cursor line, or 0 without one.
pub open spec fn cursor_address_of(a0: &AppState, u0: UiState) -> u16 {
    if u0.cursor_index < a0.disassembly@.len() {
        a0.disassembly@[u0.cursor_index as int].address
    } else {
        0u16
    }
}

/// `[s, t]` is the maximal run of equal block types around the cursor
/// address.
pub open spec fn cursor_run(a0: &AppState, u0: UiState, s: int, t: int) -> bool {
    maximal_run(a0.block_types@, cursor_address_of(a0, u0) - a0.origin, s, t)
}

/// Toggling a collapsed block, from the blocks overview or the listing.
pub open spec fn collapse_toggled(
    a0: &AppState,
    u0: UiState,
    a1: &AppState,
    u1: UiState,
    e: MenuEffect,
) -> bool {
    if u0.active_pane == ActivePane::Blocks {
        overview_collapse_toggled(a0, u0, a1, u1, e)
    } else {
        listing_collapse_toggled(a0, u0, a1, u1, e)
    }
}

fn toggle_collapse_in_overview(app: &mut AppState, ui: &mut UiState) -> (e: MenuEffect)
    requires
        overview_ready(old(app)),
    ensures
        overview_collapse_toggled(old(app), *old(ui), final(app), *final(ui), e),
{
    let items = app.get_blocks_view_items();
    match ui.blocks_selected {
        None => MenuEffect::Done,
        Some(idx) => {
            if idx < items.len() {
                match items[idx] {
                    BlockItem::Block { start, end, .. } => {
                        let restore = if ui.cursor_index < app.disassembly.len() {
                            Some(CursorRestore::OnAddress(app.disassembly[ui.cursor_index].address))
                        } else {
                            None
                        };
                        toggle_run_collapse(app, ui, start as usize, end as usize);
                        return MenuEffect::Relist(restore);
                    },
                    _ => {},
                }
            }
            ui.status_message = "Selected item is not a block".to_string();
            MenuEffect::Done
        },
    }
}

#[verifier::spinoff_prover]
#[verifier::rlimit(40)]
fn toggle_collapse_in_listing(app: &mut AppState, ui: &mut UiState) -> (e: MenuEffect)
    ensures
        listing_collapse_toggled(old(app), *old(ui), final(app), *final(ui), e),
{
    let ghost a0 = *app;
    let ghost u0 = *ui;
    if ui.cursor_index < app.disassembly.len() {
        let line_address = app.disassembly[ui.cursor_index].address;
        let offset = (line_address as usize).wrapping_sub(app.origin as usize);
        assert(offset == cursor_offset(&a0, u0));
        let found = find_collapsed(&app.collapsed_blocks, offset, None);
        proof {
            let rs = a0.collapsed_blocks@;
            if any_range(rs, collapsed_at(offset, None)) {
                let k = choose|k: int| 0 <= k < rs.len() && #[trigger] collapsed_at(offset, None)(rs[k]);
                assert(collapsed_at(offset, None)(rs[k]));
            }
        }
        match found {
            Some(k) => {
                let range = app.collapsed_blocks[k];
                record_edit(app, Command::UncollapseBlock { range }, false);
                ui.status_message = "Block Uncollapsed".to_string();
                proof {
                    assert(is_first_match(a0.collapsed_blocks@, collapsed_at(offset, None), Some(k)));
                }
                return MenuEffect::Relist(None);
            },
            None => {},
        }
    }
    let cursor_address = if ui.cursor_index < app.disassembly.len() {
        app.disassembly[ui.cursor_index].address
    } else {
        0
    };
    let range = app.get_block_range(cursor_address);
    match range {
        None => {
            ui.status_message = "No block found at cursor".to_string();
            MenuEffect::Done
        },
        Some((first, last)) => {
            let ghost types = a0.block_types@;
            let ghost index = cursor_address - a0.origin;
            let ghost (s, t) = choose|s: int, t: int|
                #![trigger maximal_run(types, index, s, t)]
                maximal_run(types, index, s, t) && range == Some(
                    (wrap16(a0.origin + wrap16(s)) as u16, wrap16(a0.origin + wrap16(t)) as u16),
                );
            let so = (first as usize).wrapping_sub(app.origin as usize);
            let eo = (last as usize).wrapping_sub(app.origin as usize);
            let existing = find_collapsed(&app.collapsed_blocks, so, Some(eo));
            proof {
                let rs = a0.collapsed_blocks@;
                if any_range(rs, collapsed_at(so, Some(eo))) {
                    let k = choose|k: int| 0 <= k < rs.len() && #[trigger] collapsed_at(so, Some(eo))(rs[k]);
                    assert(collapsed_at(so, Some(eo))(rs[k]));
                }
            }
            let e = match existing {
                Some(_) => {
                    toggle_run_collapse(app, ui, so, eo);
                    MenuEffect::Relist(None)
                },
                None => {
                    ui.selection_start = None;
                    ui.is_visual_mode = false;
                    toggle_run_collapse(app, ui, so, eo);
                    MenuEffect::Relist(Some(CursorRestore::OnAddress(first)))
                },
            };
            assert(cursor_run(&a0, u0, s, t));
            assert(cursor_run_collapse_toggled(&a0, u0, app, *ui, e, s, t));
            e
        },
    }
}

fn toggle_collapsed_block(app: &mut AppState, ui: &mut UiState) -> (e: MenuEffect)
    requires
        old(ui).active_pane == ActivePane::Blocks ==> overview_ready(old(app)),
    ensures
        collapse_toggled(old(app), *old(ui), final(app), *final(ui), e),
{
    if ui.active_pane == ActivePane::Blocks {
        toggle_collapse_in_overview(app, ui)
    } else {
        toggle_collapse_in_listing(app, ui)
    }
}

/// The addresses in `[start, end]` that hold labels.
pub open spec fn labelled_in(labels: Map<u16, Vec<Label>>, start: u16, end: u16) -> Set<u16> {
    Set::new(|k: u16| labels.contains_key(k) && start <= k <= end && labels[k]@.len() > 0)
}

/// The keys appear in increasing order.
pub open spec fn ascending(keys: Seq<u16>) -> bool {
    forall|i: int, j: int| 0 <= i < j < keys.len() ==> keys[i] < keys[j]
}

/// The undo records of removing the labels at `keys`, in that order.
pub open spec fn label_removals(labels: Map<u16, Vec<Label>>, keys: Seq<u16>) -> Seq<Command> {
    Seq::new(
        keys.len(),
        |i: int|
            Command::SetLabel { address: keys[i], new_label: None, old_label: Some(labels[keys[i]]) },
    )
}

/// The document after the labels at the addresses in `[start, end]` were
/// removed, each removal recorded in increasing address order (see
/// `AppState::push_command`).
pub open spec fn labels_removed(a0: &AppState, a1: &AppState, start: u16, end: u16) -> bool {
    let gone = labelled_in(a0.labels@, start, end);
    let p = a0.undo_stack.pointer();
    &&& a1.labels@ == a0.labels@.remove_keys(gone)
    &&& exists|keys: Seq<u16>|
        ascending(keys) && keys.to_set() == gone && a1.undo_stack.commands() == if keys.len() == 0 {
            a0.undo_stack.commands()
        } else {
            a0.undo_stack.commands().take(p as int) + label_removals(a0.labels@, keys)
        } && a1.undo_stack.pointer() == p + keys.len() && a1.last_saved_pointer == if keys.len()
            > 0 && p < a0.last_saved_pointer {
            usize::MAX
        } else {
            a0.last_saved_pointer
        }
    &&& same_except_history(a0, &AppState { labels: a0.labels, ..*a1 })
}

/// Removes every label at the addresses `[start_addr, end_addr]`, recording
/// each removal.
#[verifier::spinoff_prover]
#[verifier::rlimit(40)]
fn remove_user_labels_in_range(app: &mut AppState, start_addr: u16, end_addr: u16)
    ensures
        labels_removed(old(app), final(app), start_addr, end_addr),
{
    broadcast use vstd::std_specs::btree::group_btree_axioms;

    let ghost a0 = *app;
    let ghost p = a0.undo_stack.pointer();
    let ghost gone = labelled_in(a0.labels@, start_addr, end_addr);
    let _ = app.undo_stack.get_pointer();
    let keys = sorted_keys(&app.labels);
    let ghost mut done: Seq<u16> = Seq::empty();
    let mut i: usize = 0;
    while i < keys.len()
        invariant
            i <= keys@.len(),
            gone == labelled_in(a0.labels@, start_addr, end_addr),
            p == a0.undo_stack.pointer(),
            keys@.to_set() == a0.labels@.dom(),
            forall|x: int, y: int| 0 <= x < y < keys@.len() ==> keys@[x] < keys@[y],
            ascending(done),
            forall|x: int| 0 <= x < done.len() ==> #[trigger] gone.contains(done[x]),
            forall|x: int| 0 <= x < done.len() ==> exists|y: int| 0 <= y < i && keys@[y] == #[trigger] done[x],
            forall|y: int| 0 <= y < i && #[trigger] gone.contains(keys@[y]) ==> done.contains(keys@[y]),
            i < keys@.len() ==> forall|x: int| 0 <= x < done.len() ==> done[x] < keys@[i as int],
            app.labels@ == a0.labels@.remove_keys(done.to_set()),
            app.undo_stack.commands() == if done.len() == 0 {
                a0.undo_stack.commands()
            } else {
                a0.undo_stack.commands().take(p as int) + label_removals(a0.labels@, done)
            },
            app.undo_stack.pointer() == p + done.len(),
            p <= a0.undo_stack.commands().len(),
            app.last_saved_pointer == if done.len() > 0 && p < a0.last_saved_pointer {
                usize::MAX
            } else {
                a0.last_saved_pointer
            },
            same_except_history(&a0, &AppState { labels: a0.labels, ..*app }),
        decreases keys@.len() - i,
    {
        let k = keys[i];
        proof {
            assert(keys@.contains(k));
            assert(keys@.to_set().contains(k));
            assert(!done.contains(k)) by {
                if done.contains(k) {
                    let x = choose|x: int| 0 <= x < done.len() && done[x] == k;
                    assert(done[x] < keys@[i as int]);
                }
            }
        }
        let ghost done0 = done;
        proof {
            if gone.contains(k) {
                assert(app.labels@.contains_key(k));
            }
        }
        let in_range = start_addr <= k && k <= end_addr;
        if in_range {
            let ghost before = app.labels@;
            let taken = app.labels.remove(&k);
            match taken {
                Some(old_labels) => {
                    proof {
                        assert(before.contains_key(k) && before[k] == old_labels);
                        assert(!done.to_set().contains(k));
                        assert(a0.labels@[k] == old_labels);
                    }
                    if old_labels.len() > 0 {
                        let command = Command::SetLabel {
                            address: k,
                            new_label: None,
                            old_label: Some(old_labels),
                        };
                        let ghost stack_before = app.undo_stack.commands();
                        app.push_command(command);
                        proof {
                            let d2 = done.push(k);
                            assert(label_removals(a0.labels@, d2) =~= label_removals(
                                a0.labels@,
                                done,
                            ).push(command));
                            assert(a0.labels@.dom().contains(k));
                            assert(start_addr <= k <= end_addr && a0.labels@[k]@.len() > 0);
                            assert(gone.contains(k));
                            done.lemma_push_to_set_commute(k);
                            if done.len() == 0 {
                                assert(stack_before.take(p as int) =~= a0.undo_stack.commands().take(p as int));
                            } else {
                                assert(stack_before.take((p + done.len()) as int) =~= stack_before);
                            }
                            assert(d2.to_set() =~= done.to_set().insert(k));
                            assert(app.labels@ =~= a0.labels@.remove_keys(d2.to_set()));
                            done = d2;
                        }
                    } else {
                        app.labels.insert(k, old_labels);
                        proof {
                            assert(app.labels@ =~= before);
                        }
                    }
                },
                None => {},
            }
        }
        proof {
            assert forall|y: int| 0 <= y < i + 1 && #[trigger] gone.contains(keys@[y]) implies done.contains(
                keys@[y],
            ) by {
                if y < i {
                    let x = choose|x: int| 0 <= x < done0.len() && done0[x] == keys@[y];
                    assert(done[x] == keys@[y]);
                } else {
                    assert(done[done.len() - 1] == k);
                }
            }
            assert(app.labels@ =~= a0.labels@.remove_keys(done.to_set()));
            if i + 1 < keys@.len() {
                assert(keys@[i as int] < keys@[i + 1]);
            }
        }
        i = i + 1;
    }
    proof {
        assert(done.to_set() =~= gone) by {
            assert forall|k: u16| gone.contains(k) implies done.to_set().contains(k) by {
                assert(keys@.to_set().contains(k));
                let y = choose|y: int| 0 <= y < keys@.len() && keys@[y] == k;
                assert(gone.contains(keys@[y]));
            }
            assert forall|k: u16| done.to_set().contains(k) implies gone.contains(k) by {
                let x = choose|x: int| 0 <= x < done.len() && done[x] == k;
                assert(gone.contains(done[x]));
            }
        }
    }
}

/// A first match, when there is one, is unique.
pub proof fn lemma_first_match_unique<T>(
    s: Seq<T>,
    p: spec_fn(T) -> bool,
    r1: Option<usize>,
    r2: Option<usize>,
)
    requires
        is_first_match(s, p, r1),
        is_first_match(s, p, r2),
    ensures
        r1 == r2,
{
    match (r1, r2) {
        (Some(i), Some(j)) => {
            if i < j {
                assert(!p(s[i as int]));
            } else if j < i {
                assert(!p(s[j as int]));
            }
        },
        (Some(i), None) => {
            assert(!p(s[i as int]));
        },
        (None, Some(j)) => {
            assert(!p(s[j as int]));
        },
        _ => {},
    }
}

/// Index of the first listing line covering `a`, if any.
pub open spec fn first_covering(lines: Seq<DisassemblyLine>, a: u16) -> Option<usize> {
    choose|r: Option<usize>| is_first_match(lines, covers_address(a), r)
}

/// The byte offsets `[start, end]` of the instruction at a referencing
/// address: the first line covering it, when it holds bytes and lies
/// inside an image of `len` bytes.
pub open spec fn xref_range(lines: Seq<DisassemblyLine>, origin: u16, len: nat, x: u16) -> Option<
    (usize, usize),
> {
    match first_covering(lines, x) {
        Some(i) => {
            let l = lines[i as int];
            let n = l.bytes@.len();
            let start = wrap16(l.address - origin);
            let end = start + n - 1;
            if n > 0 && start < len && end < len {
                Some((start as usize, end as usize))
            } else {
                None
            }
        },
        None => None,
    }
}

/// The ranges of the referencing instructions, in reference order.
pub open spec fn xref_ranges(
    lines: Seq<DisassemblyLine>,
    origin: u16,
    len: nat,
    xs: Seq<u16>,
) -> Seq<(usize, usize)>
    decreases xs.len(),
{
    if xs.len() == 0 {
        Seq::empty()
    } else {
        let prev = xref_ranges(lines, origin, len, xs.drop_last());
        match xref_range(lines, origin, len, xs.last()) {
            Some(r) => prev.push(r),
            None => prev,
        }
    }
}

fn xref_ranges_of(app: &AppState, xrefs: &Vec<u16>) -> (r: Vec<(usize, usize)>)
    ensures
        r@ == xref_ranges(app.disassembly@, app.origin, app.block_types@.len(), xrefs@),
        ranges_inside(r@, app.block_types@.len()),
{
    let len = app.block_types.len();
    let mut r: Vec<(usize, usize)> = Vec::new();
    let mut i: usize = 0;
    while i < xrefs.len()
        invariant
            i <= xrefs@.len(),
            len == app.block_types@.len(),
            r@ == xref_ranges(app.disassembly@, app.origin, len as nat, xrefs@.take(i as int)),
            ranges_inside(r@, len as nat),
        decreases xrefs@.len() - i,
    {
        let x = xrefs[i];
        let found = app.get_line_index_containing_address(x);
        proof {
            lemma_first_match_unique(app.disassembly@, covers_address(x), found, first_covering(app.disassembly@, x));
            assert(xrefs@.take(i + 1).drop_last() =~= xrefs@.take(i as int));
        }
        match found {
            Some(idx) => {
                let line = &app.disassembly[idx];
                let n = line.bytes.len();
                if n > 0 {
                    let start = line.address.wrapping_sub(app.origin) as usize;
                    if start < len && n - 1 < len - start {
                        r.push((start, start + (n - 1)));
                    }
                }
            },
            None => {},
        }
        i = i + 1;
    }
    assert(xrefs@.take(xrefs@.len() as int) =~= xrefs@);
    r
}

/// Every range is non-empty and lies inside an image of `len` bytes.
pub open spec fn ranges_inside(ranges: Seq<(usize, usize)>, len: nat) -> bool {
    forall|k: int| #![trigger ranges[k]] 0 <= k < ranges.len() ==> ranges[k].0 <= ranges[k].1 && ranges[k].1 < len
}

/// First address of the byte range `r` (offsets) of an image at `origin`.
pub open spec fn range_first_addr(origin: u16, r: (usize, usize)) -> u16 {
    wrap16(origin + wrap16(r.0 as int)) as u16
}

/// Last address of the byte range `r` of an image at `origin`.
pub open spec fn range_last_addr(origin: u16, r: (usize, usize)) -> u16 {
    wrap16(origin + wrap16(r.1 as int)) as u16
}

/// `states` are the documents between the label removals over each of
/// `ranges` in turn (see `labels_removed`).
pub open spec fn removal_chain(states: Seq<AppState>, origin: u16, ranges: Seq<(usize, usize)>) -> bool {
    &&& states.len() == ranges.len() + 1
    &&& forall|k: int, k2: int|
        #![trigger states[k], states[k2]]
        0 <= k < ranges.len() && k2 == k + 1 ==> labels_removed(
            &states[k],
            &states[k2],
            range_first_addr(origin, ranges[k]),
            range_last_addr(origin, ranges[k]),
        )
}

/// Offset `i` lies in one of the first `j` ranges.
pub open spec fn covered_before(ranges: Seq<(usize, usize)>, j: int, i: int) -> bool {
    exists|k: int| 0 <= k < j && #[trigger] ranges[k].0 <= i <= ranges[k].1
}

/// `types` with every offset of `ranges` set to single data bytes.
pub open spec fn bytes_marked(types: Seq<BlockType>, ranges: Seq<(usize, usize)>) -> Seq<BlockType> {
    Seq::new(
        types.len(),
        |i: int|
            if covered_before(ranges, ranges.len() as int, i) {
                BlockType::DataByte
            } else {
                types[i]
            },
    )
}

/// The type offset `i` had when range `j` was marked: data bytes if an
/// earlier range already marked it.
pub open spec fn type_when_marked(
    types: Seq<BlockType>,
    ranges: Seq<(usize, usize)>,
    j: int,
    i: int,
) -> BlockType {
    if covered_before(ranges, j, i) {
        BlockType::DataByte
    } else {
        types[i]
    }
}

/// The earlier types that range `j` recorded for offsets inside range `k`.
pub open spec fn olds_in(types: Seq<BlockType>, ranges: Seq<(usize, usize)>, k: int, j: int) -> Seq<
    BlockType,
> {
    let lo = if ranges[j].0 < ranges[k].0 {
        ranges[k].0 as int
    } else {
        ranges[j].0 as int
    };
    let hi = if ranges[j].1 < ranges[k].1 {
        ranges[j].1 as int
    } else {
        ranges[k].1 as int
    };
    if lo <= hi {
        Seq::new((hi - lo + 1) as nat, |t: int| type_when_marked(types, ranges, j, lo + t))
    } else {
        Seq::empty()
    }
}

/// The earlier types recorded by the first `j` ranges for offsets inside
/// range `k`, in recording order: the undo record of range `k`.
pub open spec fn olds_upto(types: Seq<BlockType>, ranges: Seq<(usize, usize)>, k: int, j: nat) -> Seq<
    BlockType,
>
    decreases j,
{
    if j == 0 {
        Seq::empty()
    } else {
        olds_upto(types, ranges, k, (j - 1) as nat) + olds_in(types, ranges, k, j - 1)
    }
}

/// `cmds` are the undo records of marking `ranges` as data bytes and
/// installing the analysis `labels`, `xrefs` in place of `labels0`,
/// `xrefs0` (the first record holds the earlier analysis, the later ones
/// the new one, as each follows the one before).
pub open spec fn marking_records(
    types: Seq<BlockType>,
    ranges: Seq<(usize, usize)>,
    cmds: Seq<Command>,
    labels0: Map<u16, Seq<Label>>,
    xrefs0: Map<u16, Vec<u16>>,
    labels: Map<u16, Seq<Label>>,
    xrefs: Map<u16, Vec<u16>>,
) -> bool {
    &&& cmds.len() == ranges.len()
    &&& forall|k: int|
        0 <= k < ranges.len() ==> (#[trigger] cmds[k] matches Command::SetBlockType {
            start,
            end,
            new_type,
            old_types,
            labels: l,
            cross_refs: x,
            old_labels: ol,
            old_cross_refs: ox,
        } && start == ranges[k].0 && end == ranges[k].1 + 1 && new_type == BlockType::DataByte
            && old_types@ == olds_upto(types, ranges, k, ranges.len()) && label_view(l@) == labels
            && x@ == xrefs && label_view(ol@) == (if k == 0 {
            labels0
        } else {
            labels
        }) && ox@ == (if k == 0 {
            xrefs0
        } else {
            xrefs
        }))
}

fn mark_data_bytes(types: &mut Vec<BlockType>, ranges: &Vec<(usize, usize)>)
    requires
        ranges_inside(ranges@, old(types)@.len()),
    ensures
        final(types)@ == bytes_marked(old(types)@, ranges@),
{
    let ghost t0 = types@;
    let n = types.len();
    let mut k: usize = 0;
    while k < ranges.len()
        invariant
            k <= ranges@.len(),
            n == t0.len(),
            ranges_inside(ranges@, t0.len()),
            types@.len() == t0.len(),
            forall|i: int|
                0 <= i < t0.len() ==> #[trigger] types@[i] == if covered_before(ranges@, k as int, i) {
                    BlockType::DataByte
                } else {
                    t0[i]
                },
        decreases ranges@.len() - k,
    {
        let (lo, hi) = ranges[k];
        assert(lo <= hi && hi < t0.len());
        let mut i = lo;
        while i <= hi
            invariant
                k < ranges@.len(),
                ranges@[k as int] == (lo, hi),
                lo <= i <= hi + 1,
                hi < t0.len(),
                n == t0.len(),
                types@.len() == t0.len(),
                forall|x: int|
                    0 <= x < t0.len() ==> #[trigger] types@[x] == if covered_before(
                        ranges@,
                        k as int,
                        x,
                    ) || lo <= x < i {
                        BlockType::DataByte
                    } else {
                        t0[x]
                    },
            decreases hi + 1 - i,
        {
            types.set(i, BlockType::DataByte);
            i = i + 1;
        }
        proof {
            assert forall|x: int| 0 <= x < t0.len() implies #[trigger] types@[x] == if covered_before(
                ranges@,
                k + 1,
                x,
            ) {
                BlockType::DataByte
            } else {
                t0[x]
            } by {
                if covered_before(ranges@, k + 1, x) && !covered_before(ranges@, k as int, x) {
                    let w = choose|w: int| 0 <= w < k + 1 && #[trigger] ranges@[w].0 <= x <= ranges@[w].1;
                    assert(w == k);
                }
                if lo <= x <= hi {
                    assert(ranges@[k as int].0 <= x <= ranges@[k as int].1);
                }
            }
        }
        k = k + 1;
    }
    assert(types@ =~= bytes_marked(t0, ranges@));
}

fn covered_by_earlier(ranges: &Vec<(usize, usize)>, j: usize, i: usize) -> (r: bool)
    requires
        j <= ranges@.len(),
    ensures
        r == covered_before(ranges@, j as int, i as int),
{
    let mut k: usize = 0;
    while k < j
        invariant
            k <= j <= ranges@.len(),
            forall|w: int| 0 <= w < k ==> !(#[trigger] ranges@[w].0 <= i <= ranges@[w].1),
        decreases j - k,
    {
        let (lo, hi) = ranges[k];
        if lo <= i && i <= hi {
            assert(ranges@[k as int].0 <= i <= ranges@[k as int].1);
            return true;
        }
        k = k + 1;
    }
    false
}

fn recorded_olds(types: &Vec<BlockType>, ranges: &Vec<(usize, usize)>, k: usize) -> (r: Vec<
    BlockType,
>)
    requires
        k < ranges@.len(),
        ranges_inside(ranges@, types@.len()),
    ensures
        r@ == olds_upto(types@, ranges@, k as int, ranges@.len()),
{
    let mut r: Vec<BlockType> = Vec::new();
    let (klo, khi) = ranges[k];
    let n = types.len();
    let mut j: usize = 0;
    while j < ranges.len()
        invariant
            n == types@.len(),
            k < ranges@.len(),
            ranges@[k as int] == (klo, khi),
            j <= ranges@.len(),
            ranges_inside(ranges@, types@.len()),
            r@ == olds_upto(types@, ranges@, k as int, j as nat),
        decreases ranges@.len() - j,
    {
        let (jlo, jhi) = ranges[j];
        assert(jlo <= jhi && jhi < types@.len());
        let lo = if jlo < klo {
            klo
        } else {
            jlo
        };
        let hi = if jhi < khi {
            jhi
        } else {
            khi
        };
        let ghost base = r@;
        if lo <= hi {
            let mut i = lo;
            while i <= hi
                invariant
                    j < ranges@.len(),
                    lo <= i <= hi + 1,
                    hi < types@.len(),
                    n == types@.len(),
                    r@ == base + Seq::new(
                        (i - lo) as nat,
                        |t: int| type_when_marked(types@, ranges@, j as int, lo + t),
                    ),
                decreases hi + 1 - i,
            {
                let earlier = covered_by_earlier(ranges, j, i);
                let t = if earlier {
                    BlockType::DataByte
                } else {
                    types[i]
                };
                r.push(t);
                proof {
                    assert(r@ =~= base + Seq::new(
                        (i + 1 - lo) as nat,
                        |t: int| type_when_marked(types@, ranges@, j as int, lo + t),
                    ));
                }
                i = i + 1;
            }
        }
        proof {
            assert(olds_in(types@, ranges@, k as int, j as int) =~= if lo <= hi {
                Seq::new(
                    (hi + 1 - lo) as nat,
                    |t: int| type_when_marked(types@, ranges@, j as int, lo + t),
                )
            } else {
                Seq::empty()
            });
            assert(r@ =~= olds_upto(types@, ranges@, k as int, (j + 1) as nat));
        }
        j = j + 1;
    }
    r
}

fn copy_types(v: &Vec<BlockType>) -> (r: Vec<BlockType>)
    ensures
        r@ == v@,
{
    let mut r: Vec<BlockType> = Vec::new();
    let mut i: usize = 0;
    while i < v.len()
        invariant
            i <= v@.len(),
            r@ == v@.take(i as int),
        decreases v@.len() - i,
    {
        r.push(v[i]);
        i = i + 1;
    }
    assert(v@.take(v@.len() as int) =~= v@);
    r
}

/// After the marked document `m` was analysed, the analysis result is
/// installed and one undo record per marked range is recorded (see
/// `AppState::push_command`).
pub open spec fn analysed_and_recorded<F: Fn(&AppState) -> (
    BTreeMap<u16, Vec<Label>>,
    BTreeMap<u16, Vec<u16>>,
)>(
    m: &AppState,
    a1: &AppState,
    types0: Seq<BlockType>,
    ranges: Seq<(usize, usize)>,
    analyze: F,
) -> bool {
    let p = m.undo_stack.pointer();
    &&& call_ensures(analyze, (m,), (a1.labels, a1.cross_refs))
    &&& a1.undo_stack.commands().take(p as int) == m.undo_stack.commands().take(p as int)
    &&& marking_records(
        types0,
        ranges,
        a1.undo_stack.commands().skip(p as int),
        label_view(m.labels@),
        m.cross_refs@,
        label_view(a1.labels@),
        a1.cross_refs@,
    )
    &&& a1.undo_stack.pointer() == p + ranges.len()
    &&& a1.last_saved_pointer == if p < m.last_saved_pointer {
        usize::MAX
    } else {
        m.last_saved_pointer
    }
    &&& same_except_history(m, &AppState { labels: m.labels, cross_refs: m.cross_refs, ..*a1 })
}

/// Turning the instructions that reference `label_addr` into data bytes:
/// nothing without references; refused (`false`) above 100 references.
/// Otherwise, for the ranges of the referencing instructions, the labels
/// inside each are removed, the bytes marked as data bytes, the document
/// analysed again, and each marking recorded.
pub open spec fn references_converted<F: Fn(&AppState) -> (
    BTreeMap<u16, Vec<Label>>,
    BTreeMap<u16, Vec<u16>>,
)>(a0: &AppState, a1: &AppState, label_addr: u16, analyze: F, done: bool) -> bool {
    if !a0.cross_refs@.contains_key(label_addr) {
        *a1 == *a0 && done
    } else if a0.cross_refs@[label_addr]@.len() > 100 {
        *a1 == *a0 && !done
    } else {
        let ranges = xref_ranges(
            a0.disassembly@,
            a0.origin,
            a0.block_types@.len(),
            a0.cross_refs@[label_addr]@,
        );
        &&& done
        &&& if ranges.len() == 0 {
            *a1 == *a0
        } else {
            exists|states: Seq<AppState>, marked: AppState|
                states[0] == *a0 && removal_chain(states, a0.origin, ranges) && marked
                    == AppState { block_types: marked.block_types, ..states.last() }
                    && marked.block_types@ == bytes_marked(a0.block_types@, ranges)
                    && analysed_and_recorded(&marked, a1, a0.block_types@, ranges, analyze)
        }
    }
}

#[verifier::spinoff_prover]
#[verifier::rlimit(40)]
fn convert_label_references_to_bytes<F>(app: &mut AppState, label_addr: u16, analyze: &F) -> (done:
    bool) where F: Fn(&AppState) -> (BTreeMap<u16, Vec<Label>>, BTreeMap<u16, Vec<u16>>)
    requires
        forall|s: &AppState| #[trigger] analyze.requires((s,)),
    ensures
        references_converted(old(app), final(app), label_addr, *analyze, done),
        final(app).disassembly == old(app).disassembly,
        final(app).origin == old(app).origin,
        final(app).block_types@.len() == old(app).block_types@.len(),
{
    broadcast use vstd::std_specs::btree::group_btree_axioms;

    let ghost a0 = *app;
    let xrefs = match app.cross_refs.get(&label_addr) {
        None => {
            return true;
        },
        Some(x) => x.clone(),
    };
    if xrefs.len() > 100 {
        return false;
    }
    let ranges = xref_ranges_of(app, &xrefs);
    let ghost mut states: Seq<AppState> = seq![*app];
    let mut k: usize = 0;
    while k < ranges.len()
        invariant
            k <= ranges@.len(),
            states.len() == k + 1,
            states[0] == a0,
            states.last() == *app,
            ranges_inside(ranges@, a0.block_types@.len()),
            app.block_types@.len() == a0.block_types@.len(),
            app.block_types == a0.block_types,
            app.origin == a0.origin,
            app.disassembly == a0.disassembly,
            forall|w: int, w2: int|
                #![trigger states[w], states[w2]]
                0 <= w < k && w2 == w + 1 ==> labels_removed(
                    &states[w],
                    &states[w2],
                    range_first_addr(a0.origin, ranges@[w]),
                    range_last_addr(a0.origin, ranges@[w]),
                ),
        decreases ranges@.len() - k,
    {
        let (lo, hi) = ranges[k];
        proof {
            crate::blocks::lemma_trunc16(lo);
            crate::blocks::lemma_trunc16(hi);
        }
        let first = app.origin.wrapping_add(lo as u16);
        let last = app.origin.wrapping_add(hi as u16);
        remove_user_labels_in_range(app, first, last);
        proof {
            let s0 = states;
            states = states.push(*app);
            assert forall|w: int, w2: int|
                #![trigger states[w], states[w2]]
                0 <= w < k + 1 && w2 == w + 1 implies labels_removed(
                &states[w],
                &states[w2],
                range_first_addr(a0.origin, ranges@[w]),
                range_last_addr(a0.origin, ranges@[w]),
            ) by {
                if w < k {
                    assert(states[w] == s0[w] && states[w2] == s0[w2]);
                }
            }
        }
        k = k + 1;
    }
    if ranges.len() == 0 {
        return true;
    }
    let types0 = copy_types(&app.block_types);
    mark_data_bytes(&mut app.block_types, &ranges);
    let ghost marked = *app;
    let labels0 = app.labels.clone();
    let xrefs0 = app.cross_refs.clone();
    let (labels, cross_refs) = analyze(app);
    app.labels = labels;
    app.cross_refs = cross_refs;
    let ghost analysed = *app;
    let _ = app.undo_stack.get_pointer();
    let n = types0.len();
    let mut j: usize = 0;
    while j < ranges.len()
        invariant
            n == types0@.len(),
            j <= ranges@.len(),
            ranges@.len() > 0,
            ranges_inside(ranges@, types0@.len()),
            types0@ == a0.block_types@,
            analysed.undo_stack.pointer() <= analysed.undo_stack.commands().len(),
            app.undo_stack.pointer() == analysed.undo_stack.pointer() + j,
            j > 0 ==> app.undo_stack.commands().len() == app.undo_stack.pointer(),
            j == 0 ==> app.undo_stack.commands() == analysed.undo_stack.commands(),
            app.undo_stack.commands().take(analysed.undo_stack.pointer() as int)
                == analysed.undo_stack.commands().take(analysed.undo_stack.pointer() as int),
            forall|w: int|
                0 <= w < j ==> (#[trigger] app.undo_stack.commands()[analysed.undo_stack.pointer()
                    + w] matches Command::SetBlockType {
                    start,
                    end,
                    new_type,
                    old_types,
                    labels: l,
                    cross_refs: x,
                    old_labels: ol,
                    old_cross_refs: ox,
                } && start == ranges@[w].0 && end == ranges@[w].1 + 1 && new_type
                    == BlockType::DataByte && old_types@ == olds_upto(
                    a0.block_types@,
                    ranges@,
                    w,
                    ranges@.len(),
                ) && label_view(l@) == label_view(analysed.labels@) && x@ == analysed.cross_refs@
                    && label_view(ol@) == (if w == 0 {
                    label_view(marked.labels@)
                } else {
                    label_view(analysed.labels@)
                }) && ox@ == (if w == 0 {
                    marked.cross_refs@
                } else {
                    analysed.cross_refs@
                })),
            label_view(labels0@) == label_view(marked.labels@),
            xrefs0@ == marked.cross_refs@,
            app.last_saved_pointer == if j > 0 && analysed.undo_stack.pointer()
                < analysed.last_saved_pointer {
                usize::MAX
            } else {
                analysed.last_saved_pointer
            },
            same_except_history(&analysed, app),
            analysed.disassembly == a0.disassembly,
            analysed.origin == a0.origin,
            analysed.block_types@.len() == a0.block_types@.len(),
        decreases ranges@.len() - j,
    {
        let (lo, hi) = ranges[j];
        let olds = recorded_olds(&types0, &ranges, j);
        let (old_labels, old_cross_refs) = if j == 0 {
            (labels0.clone(), xrefs0.clone())
        } else {
            (app.labels.clone(), app.cross_refs.clone())
        };
        let command = Command::SetBlockType {
            start: lo,
            end: hi + 1,
            new_type: BlockType::DataByte,
            old_types: olds,
            labels: app.labels.clone(),
            cross_refs: app.cross_refs.clone(),
            old_labels,
            old_cross_refs,
        };
        app.push_command(command);
        j = j + 1;
    }
    proof {
        let p = analysed.undo_stack.pointer() as int;
        let cmds = app.undo_stack.commands().skip(p);
        assert(cmds.len() == ranges@.len());
        assert forall|w: int| 0 <= w < ranges@.len() implies (#[trigger] cmds[w] matches Command::SetBlockType {
            start,
            end,
            new_type,
            old_types,
            labels: l,
            cross_refs: x,
            old_labels: ol,
            old_cross_refs: ox,
        } && start == ranges@[w].0 && end == ranges@[w].1 + 1 && new_type == BlockType::DataByte
            && old_types@ == olds_upto(a0.block_types@, ranges@, w, ranges@.len()) && label_view(l@)
            == label_view(app.labels@) && x@ == app.cross_refs@ && label_view(ol@) == (if w == 0 {
            label_view(marked.labels@)
        } else {
            label_view(app.labels@)
        }) && ox@ == (if w == 0 {
            marked.cross_refs@
        } else {
            app.cross_refs@
        })) by {
            assert(cmds[w] == app.undo_stack.commands()[p + w]);
        }
        assert(marking_records(
            a0.block_types@,
            ranges@,
            cmds,
            label_view(marked.labels@),
            marked.cross_refs@,
            label_view(app.labels@),
            app.cross_refs@,
        ));
        assert(removal_chain(states, a0.origin, ranges@));
        assert(marked == AppState { block_types: marked.block_types, ..states.last() });
        assert(analysed_and_recorded(&marked, app, a0.block_types@, ranges@, *analyze));
        assert(xrefs@ == a0.cross_refs@[label_addr]@);
    }
    true
}

/// Addresses of the listing lines `first..=last` that carry labels, in
/// listing order (indices past the listing are skipped).
pub open spec fn labelled_line_addresses(app: &AppState, first: int, last: int) -> Seq<u16>
    decreases last - first + 1,
{
    if last < first {
        Seq::empty()
    } else {
        let prev = labelled_line_addresses(app, first, last - 1);
        let lines = app.disassembly@;
        if 0 <= last < lines.len() && app.labels@.contains_key(lines[last].address) {
            prev.push(lines[last].address)
        } else {
            prev
        }
    }
}

/// `states` are the documents between converting the references to each
/// of `addrs` in turn, with the outcomes `results`.
pub open spec fn conversions<F: Fn(&AppState) -> (
    BTreeMap<u16, Vec<Label>>,
    BTreeMap<u16, Vec<u16>>,
)>(states: Seq<AppState>, addrs: Seq<u16>, results: Seq<bool>, analyze: F) -> bool {
    &&& states.len() == addrs.len() + 1
    &&& results.len() == addrs.len()
    &&& forall|k: int, k2: int|
        #![trigger states[k], states[k2]]
        0 <= k < addrs.len() && k2 == k + 1 ==> references_converted(
            &states[k],
            &states[k2],
            addrs[k],
            analyze,
            results[k],
        )
}

/// The label clean-up before bytes become data bytes: the references to
/// each of `addrs` are converted in turn (`skipped` tells whether one was
/// refused), then the labels in `removal`'s address range are removed.
pub open spec fn labels_cleared<F: Fn(&AppState) -> (
    BTreeMap<u16, Vec<Label>>,
    BTreeMap<u16, Vec<u16>>,
)>(
    a0: &AppState,
    mid: &AppState,
    addrs: Seq<u16>,
    removal: Option<(u16, u16)>,
    analyze: F,
    skipped: bool,
) -> bool {
    exists|states: Seq<AppState>, results: Seq<bool>|
        states[0] == *a0 && conversions(states, addrs, results, analyze) && skipped == results.contains(
            false,
        ) && match removal {
            Some((first, last)) => labels_removed(&states.last(), mid, first, last),
            None => *mid == states.last(),
        }
}

/// The status text after setting block type `t`.
pub open spec fn block_type_status(t: BlockType, skipped: bool, single: bool) -> Seq<char> {
    "Set block type to "@ + block_type_name(t) + if !skipped {
        ""@
    } else if single {
        " (label had too many references)"@
    } else {
        " (some labels had too many references)"@
    }
}

/// The status text refusing an odd-sized range for a word-pair type.
pub open spec fn even_error_status(t: BlockType) -> Seq<char> {
    "Error: "@ + block_type_name(t) + " requires even number of bytes"@
}

/// Setting block type `t` on the selected lines `(sel, cur)`, after the
/// label clean-up of `addrs` and `removal` when the new type is data bytes
/// (see `labels_cleared`); `u1` is `u0` with the resulting status text.
#[verifier::opaque]
pub open spec fn block_type_set_with_cleanup<F: Fn(&AppState) -> (
    BTreeMap<u16, Vec<Label>>,
    BTreeMap<u16, Vec<u16>>,
)>(
    a0: &AppState,
    u0: UiState,
    a1: &AppState,
    u1: UiState,
    t: BlockType,
    sel: Option<usize>,
    cur: usize,
    addrs: Seq<u16>,
    removal: Option<(u16, u16)>,
    analyze: F,
    single: bool,
) -> bool {
    if t == BlockType::DataByte {
        exists|mid: AppState, skipped: bool|
            labels_cleared(a0, &mid, addrs, removal, analyze, skipped) && block_type_region_set(
                &mid,
                a1,
                t,
                sel,
                cur,
                analyze,
            ) && shows(u0, u1, u0.active_dialog, block_type_status(t, skipped, single))
    } else {
        block_type_region_set(a0, a1, t, sel, cur, analyze) && shows(
            u0,
            u1,
            u0.active_dialog,
            block_type_status(t, false, single),
        )
    }
}

/// The selected lines can get a new type without overflow (see
/// `AppState::set_block_type_region`).
pub open spec fn region_ok(a0: &AppState, sel: Option<usize>, cur: usize) -> bool {
    &&& region_lines_fit(a0.disassembly@, sel, cur)
    &&& region_within_image(a0.disassembly@, a0.origin, a0.block_types@.len(), sel, cur)
}

fn clear_labels_for_bytes<F>(
    app: &mut AppState,
    addrs: &Vec<u16>,
    removal: Option<(u16, u16)>,
    analyze: &F,
) -> (skipped: bool) where F: Fn(&AppState) -> (BTreeMap<u16, Vec<Label>>, BTreeMap<u16, Vec<u16>>)
    requires
        forall|s: &AppState| #[trigger] analyze.requires((s,)),
    ensures
        labels_cleared(old(app), final(app), addrs@, removal, *analyze, skipped),
        final(app).disassembly == old(app).disassembly,
        final(app).origin == old(app).origin,
        final(app).block_types@.len() == old(app).block_types@.len(),
{
    let ghost a0 = *app;
    let ghost mut states: Seq<AppState> = seq![*app];
    let ghost mut results: Seq<bool> = Seq::empty();
    let mut skipped = false;
    let mut k: usize = 0;
    while k < addrs.len()
        invariant
            k <= addrs@.len(),
            forall|s: &AppState| #[trigger] analyze.requires((s,)),
            states.len() == k + 1,
            results.len() == k,
            states[0] == a0,
            states.last() == *app,
            skipped == results.contains(false),
            app.disassembly == a0.disassembly,
            app.origin == a0.origin,
            app.block_types@.len() == a0.block_types@.len(),
            forall|w: int, w2: int|
                #![trigger states[w], states[w2]]
                0 <= w < k && w2 == w + 1 ==> references_converted(
                    &states[w],
                    &states[w2],
                    addrs@[w],
                    *analyze,
                    results[w],
                ),
        decreases addrs@.len() - k,
    {
        let done = convert_label_references_to_bytes(app, addrs[k], analyze);
        if !done {
            skipped = true;
        }
        proof {
            let s0 = states;
            let r0 = results;
            states = states.push(*app);
            results = results.push(done);
            assert forall|w: int, w2: int|
                #![trigger states[w], states[w2]]
                0 <= w < k + 1 && w2 == w + 1 implies references_converted(
                &states[w],
                &states[w2],
                addrs@[w],
                *analyze,
                results[w],
            ) by {
                if w < k {
                    assert(states[w] == s0[w] && states[w2] == s0[w2] && results[w] == r0[w]);
                }
            }
            assert(results.contains(false) == (r0.contains(false) || !done)) by {
                if r0.contains(false) {
                    let x = choose|x: int| 0 <= x < r0.len() && r0[x] == false;
                    assert(results[x] == false);
                }
                if results.contains(false) && !r0.contains(false) {
                    let x = choose|x: int| 0 <= x < results.len() && results[x] == false;
                    if x < k {
                        assert(r0[x] == false);
                    }
                }
                if !done {
                    assert(results[k as int] == false);
                }
            }
        }
        k = k + 1;
    }
    let ghost converted = *app;
    match removal {
        Some((first, last)) => {
            remove_user_labels_in_range(app, first, last);
        },
        None => {},
    }
    proof {
        assert(conversions(states, addrs@, results, *analyze));
        assert(match removal {
            Some((first, last)) => labels_removed(&states.last(), app, first, last),
            None => *app == states.last(),
        });
    }
    skipped
}

fn labelled_lines(app: &AppState, first: usize, last: usize) -> (r: Vec<u16>)
    ensures
        r@ == labelled_line_addresses(app, first as int, last as int),
{
    broadcast use vstd::std_specs::btree::group_btree_axioms;

    let mut r: Vec<u16> = Vec::new();
    if last < first {
        return r;
    }
    let mut i = first;
    while i <= last
        invariant
            first <= i <= last + 1,
            last < usize::MAX || i <= last,
            r@ == labelled_line_addresses(app, first as int, i - 1),
        decreases last + 1 - i,
    {
        if i < app.disassembly.len() && app.labels.contains_key(&app.disassembly[i].address) {
            r.push(app.disassembly[i].address);
        }
        if i == last {
            assert(r@ == labelled_line_addresses(app, first as int, last as int));
            return r;
        }
        i = i + 1;
    }
    r
}

/// Word-pair types need an even number of bytes.
pub open spec fn needs_even(t: BlockType) -> bool {
    t == BlockType::LoHi || t == BlockType::HiLo
}

/// `n` lines from `first` to `last` fail the even-size rule of `t`.
pub open spec fn odd_for(t: BlockType, first: int, last: int) -> bool {
    needs_even(t) && (last - first + 1) % 2 != 0
}

/// The lines the selection covers, as `(first, last)`.
pub open spec fn selection_bounds(sel: usize, cur: usize) -> (usize, usize) {
    if sel < cur {
        (sel, cur)
    } else {
        (cur, sel)
    }
}

/// The last address of listing line `i` (wrapping).
pub open spec fn line_end_address(lines: Seq<DisassemblyLine>, i: int) -> u16 {
    wrap16(lines[i].address + wrap16(lines[i].bytes@.len() as int) - 1) as u16
}

/// The block type can be set where the action would set it without
/// overflow (see `region_ok`).
pub open spec fn block_type_ready(a0: &AppState, u0: UiState, t: BlockType) -> bool {
    if u0.active_pane == ActivePane::Blocks {
        let items = overview(a0);
        &&& overview_ready(a0)
        &&& match u0.blocks_selected {
            Some(i) => if i < items.len() && items[i as int] is Block {
                let start = items[i as int]->start;
                let end = items[i as int]->end;
                !odd_for(t, start as int, end as int) ==> region_ok(a0, Some(start as usize), end as usize)
            } else {
                true
            },
            None => true,
        }
    } else {
        match u0.selection_start {
            Some(s0) => {
                let (first, last) = selection_bounds(s0, u0.cursor_index);
                !odd_for(t, first as int, last as int) ==> region_ok(a0, Some(first), last)
            },
            None => !needs_even(t) ==> region_ok(a0, None, u0.cursor_index),
        }
    }
}

/// Setting block type `t` on the run selected in the blocks overview
/// (nothing without one).
pub open spec fn block_type_applied_in_overview<F: Fn(&AppState) -> (
    BTreeMap<u16, Vec<Label>>,
    BTreeMap<u16, Vec<u16>>,
)>(
    a0: &AppState,
    u0: UiState,
    a1: &AppState,
    u1: UiState,
    t: BlockType,
    analyze: F,
    e: MenuEffect,
) -> bool {
    let lines = a0.disassembly@;
    let items = overview(a0);
    match u0.blocks_selected {
        Some(i) => if i < items.len() && items[i as int] is Block {
            let start = items[i as int]->start;
            let end = items[i as int]->end;
            if odd_for(t, start as int, end as int) {
                *a1 == *a0 && shows(u0, u1, u0.active_dialog, even_error_status(t)) && e
                    == MenuEffect::Done
            } else {
                let first = wrap16(a0.origin + start) as u16;
                let last = wrap16(a0.origin + end) as u16;
                let addrs = if t == BlockType::DataByte {
                    match (first_covering(lines, first), first_covering(lines, last)) {
                        (Some(si), Some(ei)) => labelled_line_addresses(a0, si as int, ei as int),
                        _ => Seq::empty(),
                    }
                } else {
                    Seq::empty()
                };
                &&& block_type_set_with_cleanup(
                    a0,
                    u0,
                    a1,
                    u1,
                    t,
                    Some(start as usize),
                    end as usize,
                    addrs,
                    Some((first, last)),
                    analyze,
                    false,
                )
                &&& e == MenuEffect::Relist(None)
            }
        } else {
            *a1 == *a0 && u1 == u0 && e == MenuEffect::Done
        },
        None => *a1 == *a0 && u1 == u0 && e == MenuEffect::Done,
    }
}

/// Setting block type `t` on the selected lines `s0..cursor`; the
/// selection ends and the cursor goes to the last selected byte.
pub open spec fn block_type_applied_to_selection<F: Fn(&AppState) -> (
    BTreeMap<u16, Vec<Label>>,
    BTreeMap<u16, Vec<u16>>,
)>(
    a0: &AppState,
    u0: UiState,
    a1: &AppState,
    u1: UiState,
    t: BlockType,
    s0: usize,
    analyze: F,
    e: MenuEffect,
) -> bool {
    let lines = a0.disassembly@;
    let n = lines.len();
    let (first, last) = selection_bounds(s0, u0.cursor_index);
    if odd_for(t, first as int, last as int) {
        *a1 == *a0 && shows(u0, u1, u0.active_dialog, even_error_status(t)) && e == MenuEffect::Done
    } else {
        let target = if last < n {
            line_end_address(lines, last as int)
        } else {
            0u16
        };
        let removal = if first < n && last < n {
            Some((lines[first as int].address, target))
        } else {
            None
        };
        let addrs = if t == BlockType::DataByte {
            labelled_line_addresses(a0, first as int, last as int)
        } else {
            Seq::empty()
        };
        &&& block_type_set_with_cleanup(
            a0,
            UiState { selection_start: None, is_visual_mode: false, ..u0 },
            a1,
            u1,
            t,
            Some(first),
            last,
            addrs,
            removal,
            analyze,
            false,
        )
        &&& e == MenuEffect::Relist(Some(CursorRestore::OnAddress(target)))
    }
}

/// Setting block type `t` on the cursor line (refused for word-pair types).
pub open spec fn block_type_applied_to_line<F: Fn(&AppState) -> (
    BTreeMap<u16, Vec<Label>>,
    BTreeMap<u16, Vec<u16>>,
)>(
    a0: &AppState,
    u0: UiState,
    a1: &AppState,
    u1: UiState,
    t: BlockType,
    analyze: F,
    e: MenuEffect,
) -> bool {
    let lines = a0.disassembly@;
    let n = lines.len();
    let cur = u0.cursor_index;
    if needs_even(t) {
        *a1 == *a0 && shows(u0, u1, u0.active_dialog, even_error_status(t)) && e == MenuEffect::Done
    } else {
        let addrs = if t == BlockType::DataByte && cur < n && a0.labels@.contains_key(
            lines[cur as int].address,
        ) {
            seq![lines[cur as int].address]
        } else {
            Seq::empty()
        };
        let removal = if cur < n {
            Some((lines[cur as int].address, line_end_address(lines, cur as int)))
        } else {
            None
        };
        &&& block_type_set_with_cleanup(a0, u0, a1, u1, t, None, cur, addrs, removal, analyze, true)
        &&& e == MenuEffect::Relist(None)
    }
}

/// Setting block type `t` from the blocks overview, a selection or the
/// cursor line. Word-pair types refuse an odd number of bytes (or lines).
/// Data bytes first lose the labels inside (and their references become
/// data bytes too, see `references_converted`).
pub open spec fn block_type_applied<F: Fn(&AppState) -> (
    BTreeMap<u16, Vec<Label>>,
    BTreeMap<u16, Vec<u16>>,
)>(
    a0: &AppState,
    u0: UiState,
    a1: &AppState,
    u1: UiState,
    t: BlockType,
    analyze: F,
    e: MenuEffect,
) -> bool {
    if u0.active_pane == ActivePane::Blocks {
        block_type_applied_in_overview(a0, u0, a1, u1, t, analyze, e)
    } else {
        match u0.selection_start {
            Some(s0) => block_type_applied_to_selection(a0, u0, a1, u1, t, s0, analyze, e),
            None => block_type_applied_to_line(a0, u0, a1, u1, t, analyze, e),
        }
    }
}

fn set_type_with_cleanup<F>(
    app: &mut AppState,
    ui: &mut UiState,
    t: BlockType,
    sel: Option<usize>,
    cur: usize,
    addrs: &Vec<u16>,
    removal: Option<(u16, u16)>,
    analyze: &F,
    single: bool,
) where F: Fn(&AppState) -> (BTreeMap<u16, Vec<Label>>, BTreeMap<u16, Vec<u16>>)
    requires
        forall|s: &AppState| #[trigger] analyze.requires((s,)),
        region_ok(old(app), sel, cur),
    ensures
        block_type_set_with_cleanup(
            old(app),
            *old(ui),
            final(app),
            *final(ui),
            t,
            sel,
            cur,
            addrs@,
            removal,
            *analyze,
            single,
        ),
{
    let skipped = if t == BlockType::DataByte {
        clear_labels_for_bytes(app, addrs, removal, analyze)
    } else {
        false
    };
    let ghost mid = *app;
    app.set_block_type_region(t, sel, cur, analyze);
    let name = t.display_string();
    let text = joined("Set block type to ", name);
    ui.status_message = if !skipped {
        text
    } else if single {
        joined(text.as_str(), " (label had too many references)")
    } else {
        joined(text.as_str(), " (some labels had too many references)")
    };
    proof {
        reveal(block_type_set_with_cleanup);
        reveal_strlit("");
        assert(text@ + ""@ =~= text@);
        if t == BlockType::DataByte {
            assert(labels_cleared(old(app), &mid, addrs@, removal, *analyze, skipped));
            assert(block_type_region_set(&mid, app, t, sel, cur, *analyze));
            assert(shows(*old(ui), *ui, old(ui).active_dialog, block_type_status(t, skipped, single)));
        }
    }
}

fn refuse_odd(ui: &mut UiState, t: BlockType) -> (e: MenuEffect)
    ensures
        shows(*old(ui), *final(ui), old(ui).active_dialog, even_error_status(t)),
        e == MenuEffect::Done,
{
    let text = joined("Error: ", t.display_string());
    ui.status_message = joined(text.as_str(), " requires even number of bytes");
    MenuEffect::Done
}

proof fn lemma_odd_count(first: int, last: int)
    requires
        0 <= first,
        0 <= last,
    ensures
        ((last - first + 1) % 2 != 0) == (last % 2 == first % 2),
        first <= last ==> (((last - first + 1) % 2 != 0) == ((last - first) % 2 == 0)),
{
}

#[verifier::spinoff_prover]
#[verifier::rlimit(40)]
fn apply_in_overview<F>(app: &mut AppState, ui: &mut UiState, t: BlockType, analyze: &F) -> (e:
    MenuEffect) where F: Fn(&AppState) -> (BTreeMap<u16, Vec<Label>>, BTreeMap<u16, Vec<u16>>)
    requires
        forall|s: &AppState| #[trigger] analyze.requires((s,)),
        old(ui).active_pane == ActivePane::Blocks,
        block_type_ready(old(app), *old(ui), t),
    ensures
        block_type_applied_in_overview(old(app), *old(ui), final(app), *final(ui), t, *analyze, e),
{
    let even = t == BlockType::LoHi || t == BlockType::HiLo;
    let items = app.get_blocks_view_items();
    let idx = match ui.blocks_selected {
        Some(i) => i,
        None => {
            return MenuEffect::Done;
        },
    };
    if idx >= items.len() {
        return MenuEffect::Done;
    }
    let (start, end) = match items[idx] {
        BlockItem::Block { start, end, .. } => (start, end),
        _ => {
            return MenuEffect::Done;
        },
    };
    proof {
        lemma_odd_count(start as int, end as int);
    }
    if even && (end % 2) == (start % 2) {
        return refuse_odd(ui, t);
    }
    let first = app.origin.wrapping_add(start);
    let last = app.origin.wrapping_add(end);
    let mut addrs: Vec<u16> = Vec::new();
    if t == BlockType::DataByte {
        let si = app.get_line_index_containing_address(first);
        let ei = app.get_line_index_containing_address(last);
        proof {
            lemma_first_match_unique(
                app.disassembly@,
                covers_address(first),
                si,
                first_covering(app.disassembly@, first),
            );
            lemma_first_match_unique(
                app.disassembly@,
                covers_address(last),
                ei,
                first_covering(app.disassembly@, last),
            );
        }
        match (si, ei) {
            (Some(a), Some(b)) => {
                addrs = labelled_lines(app, a, b);
            },
            _ => {},
        }
    }
    set_type_with_cleanup(
        app,
        ui,
        t,
        Some(start as usize),
        end as usize,
        &addrs,
        Some((first, last)),
        analyze,
        false,
    );
    MenuEffect::Relist(None)
}

#[verifier::spinoff_prover]
#[verifier::rlimit(40)]
fn apply_to_selection<F>(
    app: &mut AppState,
    ui: &mut UiState,
    t: BlockType,
    s0: usize,
    analyze: &F,
) -> (e: MenuEffect) where
    F: Fn(&AppState) -> (BTreeMap<u16, Vec<Label>>, BTreeMap<u16, Vec<u16>>),

    requires
        forall|s: &AppState| #[trigger] analyze.requires((s,)),
        old(ui).active_pane != ActivePane::Blocks,
        old(ui).selection_start == Some(s0),
        block_type_ready(old(app), *old(ui), t),
    ensures
        block_type_applied_to_selection(old(app), *old(ui), final(app), *final(ui), t, s0, *analyze, e),
{
    let even = t == BlockType::LoHi || t == BlockType::HiLo;
    let n = app.disassembly.len();
    let cur = ui.cursor_index;
    let (first, last) = if s0 < cur {
        (s0, cur)
    } else {
        (cur, s0)
    };
    proof {
        lemma_odd_count(first as int, last as int);
    }
    if even && (last - first) % 2 == 0 {
        return refuse_odd(ui, t);
    }
    let target = if last < n {
        let l = &app.disassembly[last];
        proof {
            crate::blocks::lemma_trunc16(l.bytes@.len() as usize);
        }
        l.address.wrapping_add(l.bytes.len() as u16).wrapping_sub(1)
    } else {
        0
    };
    let removal = if first < n && last < n {
        Some((app.disassembly[first].address, target))
    } else {
        None
    };
    let addrs = if t == BlockType::DataByte {
        labelled_lines(app, first, last)
    } else {
        Vec::new()
    };
    ui.selection_start = None;
    ui.is_visual_mode = false;
    set_type_with_cleanup(app, ui, t, Some(first), last, &addrs, removal, analyze, false);
    MenuEffect::Relist(Some(CursorRestore::OnAddress(target)))
}

#[verifier::spinoff_prover]
#[verifier::rlimit(40)]
fn apply_to_line<F>(app: &mut AppState, ui: &mut UiState, t: BlockType, analyze: &F) -> (e:
    MenuEffect) where F: Fn(&AppState) -> (BTreeMap<u16, Vec<Label>>, BTreeMap<u16, Vec<u16>>)
    requires
        forall|s: &AppState| #[trigger] analyze.requires((s,)),
        old(ui).active_pane != ActivePane::Blocks,
        old(ui).selection_start is None,
        block_type_ready(old(app), *old(ui), t),
    ensures
        block_type_applied_to_line(old(app), *old(ui), final(app), *final(ui), t, *analyze, e),
{
    broadcast use vstd::std_specs::btree::group_btree_axioms;

    if t == BlockType::LoHi || t == BlockType::HiLo {
        return refuse_odd(ui, t);
    }
    let n = app.disassembly.len();
    let cur = ui.cursor_index;
    let mut addrs: Vec<u16> = Vec::new();
    let removal = if cur < n {
        let l = &app.disassembly[cur];
        proof {
            crate::blocks::lemma_trunc16(l.bytes@.len() as usize);
        }
        if t == BlockType::DataByte && app.labels.contains_key(&l.address) {
            addrs.push(l.address);
        }
        Some((l.address, l.address.wrapping_add(l.bytes.len() as u16).wrapping_sub(1)))
    } else {
        None
    };
    set_type_with_cleanup(app, ui, t, None, cur, &addrs, removal, analyze, true);
    MenuEffect::Relist(None)
}

fn apply_block_type<F>(app: &mut AppState, ui: &mut UiState, t: BlockType, analyze: &F) -> (e:
    MenuEffect) where F: Fn(&AppState) -> (BTreeMap<u16, Vec<Label>>, BTreeMap<u16, Vec<u16>>)
    requires
        forall|s: &AppState| #[trigger] analyze.requires((s,)),
        block_type_ready(old(app), *old(ui), t),
    ensures
        block_type_applied(old(app), *old(ui), final(app), *final(ui), t, *analyze, e),
{
    if ui.active_pane == ActivePane::Blocks {
        apply_in_overview(app, ui, t, analyze)
    } else {
        match ui.selection_start {
            Some(s0) => apply_to_selection(app, ui, t, s0, analyze),
            None => apply_to_line(app, ui, t, analyze),
        }
    }
}

/// The block type a menu action sets, if it sets one.
pub open spec fn action_block_type(a: MenuAction) -> Option<BlockType> {
    match a {
        MenuAction::Code => Some(BlockType::Code),
        MenuAction::Byte => Some(BlockType::DataByte),
        MenuAction::Word => Some(BlockType::DataWord),
        MenuAction::SetExternalFile => Some(BlockType::ExternalFile),
        MenuAction::Address => Some(BlockType::Address),
        MenuAction::Text => Some(BlockType::Text),
        MenuAction::Screencode => Some(BlockType::Screencode),
        MenuAction::Undefined => Some(BlockType::Undefined),
        MenuAction::SetLoHi => Some(BlockType::LoHi),
        MenuAction::SetHiLo => Some(BlockType::HiLo),
        _ => None,
    }
}

/// Running an analysis: the result of `analyze` on the document is
/// installed as a recorded edit, the status shows "Analysis Complete", and
/// once the listing is rebuilt the cursor returns near the address it was
/// on.
pub open spec fn analysis_ran<F: Fn(&AppState) -> (
    BTreeMap<u16, Vec<Label>>,
    BTreeMap<u16, Vec<u16>>,
)>(a0: &AppState, u0: UiState, a1: &AppState, u1: UiState, analyze: F, e: MenuEffect) -> bool {
    let lines = a0.disassembly@;
    &&& exists|res: (BTreeMap<u16, Vec<Label>>, BTreeMap<u16, Vec<u16>>)|
        call_ensures(analyze, (a0,), res) && analysis_installed(a0, a1, res.0, res.1)
    &&& shows(u0, u1, u0.active_dialog, "Analysis Complete"@)
    &&& e == MenuEffect::Relist(
        Some(
            CursorRestore::AfterAnalysis(
                if u0.cursor_index < lines.len() {
                    Some(lines[u0.cursor_index as int].address)
                } else {
                    None
                },
            ),
        ),
    )
}

fn run_analysis<F>(app: &mut AppState, ui: &mut UiState, analyze: &F) -> (e: MenuEffect) where
    F: Fn(&AppState) -> (BTreeMap<u16, Vec<Label>>, BTreeMap<u16, Vec<u16>>),

    requires
        forall|s: &AppState| #[trigger] analyze.requires((s,)),
    ensures
        analysis_ran(old(app), *old(ui), final(app), *final(ui), *analyze, e),
{
    let current = if ui.cursor_index < app.disassembly.len() {
        Some(app.disassembly[ui.cursor_index].address)
    } else {
        None
    };
    let ghost a0 = *app;
    let res = analyze(app);
    let ghost r = res;
    let (labels, cross_refs) = res;
    ui.status_message = app.perform_analysis(labels, cross_refs);
    proof {
        assert(call_ensures(*analyze, (&a0,), r) && analysis_installed(&a0, app, r.0, r.1));
    }
    MenuEffect::Relist(Some(CursorRestore::AfterAnalysis(current)))
}

/// The interface state at the start of action `a`: the status names it.
pub open spec fn started(u0: UiState, mid: UiState, a: MenuAction) -> bool {
    shows(u0, mid, u0.active_dialog, action_status(a))
}

/// What action `a` does, from the document `a0` and the interface `u0` in
/// which its start was announced.
pub open spec fn action_done<F: Fn(&AppState) -> (
    BTreeMap<u16, Vec<Label>>,
    BTreeMap<u16, Vec<u16>>,
)>(
    a: MenuAction,
    a0: &AppState,
    u0: UiState,
    a1: &AppState,
    u1: UiState,
    analyze: F,
    e: MenuEffect,
) -> bool {
    let dialog_only = *a1 == *a0 && e == MenuEffect::Done && match dialog_of(a, a0, u0) {
        Some((d, t)) => shows(u0, u1, Some(d), t),
        None => false,
    };
    let ui_only = *a1 == *a0 && e == MenuEffect::Done;
    match a {
        MenuAction::Exit => ui_only && u1 == UiState { should_quit: true, ..u0 },
        MenuAction::Save => if a0.project_path is Some {
            *a1 == *a0 && u1 == u0 && e == MenuEffect::SaveProject
        } else {
            dialog_only
        },
        MenuAction::ExportProject => match a0.export_path {
            Some(p) => *a1 == *a0 && u1 == u0 && e == MenuEffect::ExportProject(p),
            None => dialog_only,
        },
        MenuAction::Open | MenuAction::SaveAs | MenuAction::ExportProjectAs
        | MenuAction::DocumentSettings | MenuAction::JumpToAddress | MenuAction::JumpToLine
        | MenuAction::Search | MenuAction::About | MenuAction::KeyboardShortcuts
        | MenuAction::ChangeOrigin | MenuAction::SystemSettings => dialog_only,
        MenuAction::Analyze => analysis_ran(a0, u0, a1, u1, analyze, e),
        MenuAction::Undo => exists|msg: Seq<char>|
            undone(a0, a1, msg) && shows(u0, u1, u0.active_dialog, msg) && e == MenuEffect::Relist(
                None,
            ),
        MenuAction::Redo => exists|msg: Seq<char>|
            redone(a0, a1, msg) && shows(u0, u1, u0.active_dialog, msg) && e == MenuEffect::Relist(
                None,
            ),
        MenuAction::Code | MenuAction::Byte | MenuAction::Word | MenuAction::SetExternalFile
        | MenuAction::Address | MenuAction::Text | MenuAction::Screencode | MenuAction::Undefined
        | MenuAction::SetLoHi | MenuAction::SetHiLo => block_type_applied(
            a0,
            u0,
            a1,
            u1,
            action_block_type(a)->0,
            analyze,
            e,
        ),
        MenuAction::FindNext => *a1 == *a0 && u1 == u0 && e == MenuEffect::Search(true),
        MenuAction::FindPrevious => *a1 == *a0 && u1 == u0 && e == MenuEffect::Search(false),
        MenuAction::JumpToOperand => ui_only && jumped(a0, u0, u1, jump_target(a0, u0)),
        MenuAction::HexdumpViewModeNext | MenuAction::HexdumpViewModePrev => {
            let m = if a == MenuAction::HexdumpViewModeNext {
                next_hexdump_mode(u0.hexdump_view_mode)
            } else {
                previous_hexdump_mode(u0.hexdump_view_mode)
            };
            ui_only && shows(
                UiState { hexdump_view_mode: m, ..u0 },
                u1,
                u0.active_dialog,
                hexdump_status(m),
            )
        },
        MenuAction::ToggleSplitter => splitter_toggled(a0, u0, a1, u1, e),
        MenuAction::ToggleSpriteMulticolor => ui_only && multicolor_toggled(u0, u1, true),
        MenuAction::ToggleCharsetMulticolor => ui_only && multicolor_toggled(u0, u1, false),
        MenuAction::SideComment => ui_only && comment_dialog_opened(a0, u0, u1, CommentKind::Side),
        MenuAction::LineComment => ui_only && comment_dialog_opened(a0, u0, u1, CommentKind::Line),
        MenuAction::ToggleHexDump | MenuAction::ToggleSpritesView | MenuAction::ToggleCharsetView
        | MenuAction::ToggleBlocksView => ui_only && pane_toggled(u0, u1, a),
        MenuAction::NextImmediateFormat => format_cycled(a0, u0, a1, u1, e, true),
        MenuAction::PreviousImmediateFormat => format_cycled(a0, u0, a1, u1, e, false),
        MenuAction::ToggleCollapsedBlock => collapse_toggled(a0, u0, a1, u1, e),
    }
}

/// What action `a` needs of the document to run without overflow or an
/// out-of-range lookup: the overview must be buildable where it is read,
/// view cursors must give addresses that fit, and a block type must be
/// settable on the selected lines.
pub open spec fn action_ready(a: MenuAction, app: &AppState, ui: UiState) -> bool {
    match a {
        MenuAction::JumpToOperand => (ui.active_pane == ActivePane::Blocks ==> overview_ready(app))
            && pane_address_fits(app, ui),
        MenuAction::ToggleSplitter | MenuAction::ToggleCollapsedBlock => ui.active_pane
            == ActivePane::Blocks ==> overview_ready(app),
        _ => match action_block_type(a) {
            Some(t) => block_type_ready(app, ui, t),
            None => true,
        },
    }
}

/// Runs a menu action (see `action_done`); the status line first names
/// the action. Work for the host is returned as a `MenuEffect`.
#[verifier::spinoff_prover]
#[verifier::rlimit(60)]
pub fn execute_menu_action<F>(
    app: &mut AppState,
    ui: &mut UiState,
    action: MenuAction,
    analyze: &F,
) -> (e: MenuEffect) where
    F: Fn(&AppState) -> (BTreeMap<u16, Vec<Label>>, BTreeMap<u16, Vec<u16>>),

    requires
        forall|s: &AppState| #[trigger] analyze.requires((s,)),
        action_ready(action, old(app), *old(ui)),
    ensures
        exists|mid: UiState|
            started(*old(ui), mid, action) && action_done(
                action,
                old(app),
                mid,
                final(app),
                *final(ui),
                *analyze,
                e,
            ),
{
    ui.status_message = joined("Action: ", action.name());
    let ghost mid = *ui;
    let e = match action {
        MenuAction::Exit => {
            ui.should_quit = true;
            MenuEffect::Done
        },
        MenuAction::Save => {
            if app.project_path.is_some() {
                MenuEffect::SaveProject
            } else {
                open_dialog(app, ui, action);
                MenuEffect::Done
            }
        },
        MenuAction::ExportProject => match &app.export_path {
            Some(p) => MenuEffect::ExportProject(p.clone()),
            None => {
                open_dialog(app, ui, action);
                MenuEffect::Done
            },
        },
        MenuAction::Open | MenuAction::SaveAs | MenuAction::ExportProjectAs
        | MenuAction::DocumentSettings | MenuAction::JumpToAddress | MenuAction::JumpToLine
        | MenuAction::Search | MenuAction::About | MenuAction::KeyboardShortcuts
        | MenuAction::ChangeOrigin | MenuAction::SystemSettings => {
            open_dialog(app, ui, action);
            MenuEffect::Done
        },
        MenuAction::Analyze => run_analysis(app, ui, analyze),
        MenuAction::Undo => {
            ui.status_message = app.undo_last_command();
            MenuEffect::Relist(None)
        },
        MenuAction::Redo => {
            ui.status_message = app.redo_last_command();
            MenuEffect::Relist(None)
        },
        MenuAction::Code => apply_block_type(app, ui, BlockType::Code, analyze),
        MenuAction::Byte => apply_block_type(app, ui, BlockType::DataByte, analyze),
        MenuAction::Word => apply_block_type(app, ui, BlockType::DataWord, analyze),
        MenuAction::SetExternalFile => apply_block_type(app, ui, BlockType::ExternalFile, analyze),
        MenuAction::Address => apply_block_type(app, ui, BlockType::Address, analyze),
        MenuAction::Text => apply_block_type(app, ui, BlockType::Text, analyze),
        MenuAction::Screencode => apply_block_type(app, ui, BlockType::Screencode, analyze),
        MenuAction::Undefined => apply_block_type(app, ui, BlockType::Undefined, analyze),
        MenuAction::SetLoHi => apply_block_type(app, ui, BlockType::LoHi, analyze),
        MenuAction::SetHiLo => apply_block_type(app, ui, BlockType::HiLo, analyze),
        MenuAction::FindNext => MenuEffect::Search(true),
        MenuAction::FindPrevious => MenuEffect::Search(false),
        MenuAction::JumpToOperand => {
            jump_to_operand(app, ui);
            MenuEffect::Done
        },
        MenuAction::HexdumpViewModeNext => {
            cycle_hexdump_mode(ui, true);
            MenuEffect::Done
        },
        MenuAction::HexdumpViewModePrev => {
            cycle_hexdump_mode(ui, false);
            MenuEffect::Done
        },
        MenuAction::ToggleSplitter => toggle_splitter_action(app, ui),
        MenuAction::ToggleSpriteMulticolor => {
            toggle_multicolor(ui, true);
            MenuEffect::Done
        },
        MenuAction::ToggleCharsetMulticolor => {
            toggle_multicolor(ui, false);
            MenuEffect::Done
        },
        MenuAction::SideComment => {
            open_comment_dialog(app, ui, CommentKind::Side);
            MenuEffect::Done
        },
        MenuAction::LineComment => {
            open_comment_dialog(app, ui, CommentKind::Line);
            MenuEffect::Done
        },
        MenuAction::ToggleHexDump | MenuAction::ToggleSpritesView | MenuAction::ToggleCharsetView
        | MenuAction::ToggleBlocksView => {
            toggle_pane(ui, action);
            MenuEffect::Done
        },
        MenuAction::NextImmediateFormat => cycle_immediate_format(app, ui, true),
        MenuAction::PreviousImmediateFormat => cycle_immediate_format(app, ui, false),
        MenuAction::ToggleCollapsedBlock => toggle_collapsed_block(app, ui),
    };
    assert(started(*old(ui), mid, action));
    e
}

/// What the menu does with an action: without a document, actions that
/// need one only report "No open document"; leaving or opening with
/// unsaved changes asks first; anything else runs (see `action_done`).
pub open spec fn menu_action_handled<F: Fn(&AppState) -> (
    BTreeMap<u16, Vec<Label>>,
    BTreeMap<u16, Vec<u16>>,
)>(
    a: MenuAction,
    a0: &AppState,
    u0: UiState,
    a1: &AppState,
    u1: UiState,
    analyze: F,
    e: MenuEffect,
) -> bool {
    if !works_without_document(a) && a0.raw_data@.len() == 0 {
        *a1 == *a0 && shows(u0, u1, u0.active_dialog, "No open document"@) && e == MenuEffect::Done
    } else if (a == MenuAction::Exit || a == MenuAction::Open) && a0.undo_stack.pointer()
        != a0.last_saved_pointer {
        &&& *a1 == *a0
        &&& e == MenuEffect::Done
        &&& u1 == UiState { active_dialog: u1.active_dialog, ..u0 }
        &&& u1.active_dialog matches Some(Dialog::Confirmation { title, message, action })
            && title@ == "Unsaved Changes"@ && message@ == "You have unsaved changes. Proceed?"@
            && action == a
    } else {
        exists|mid: UiState| started(u0, mid, a) && action_done(a, a0, mid, a1, u1, analyze, e)
    }
}

/// Handles an action chosen from the menu, a dialog or a key binding (see
/// `menu_action_handled`).
pub fn handle_menu_action<F>(
    app: &mut AppState,
    ui: &mut UiState,
    action: MenuAction,
    analyze: &F,
) -> (e: MenuEffect) where
    F: Fn(&AppState) -> (BTreeMap<u16, Vec<Label>>, BTreeMap<u16, Vec<u16>>),

    requires
        forall|s: &AppState| #[trigger] analyze.requires((s,)),
        old(app).raw_data@.len() > 0 || works_without_document(action) ==> action_ready(
            action,
            old(app),
            *old(ui),
        ),
    ensures
        menu_action_handled(action, old(app), *old(ui), final(app), *final(ui), *analyze, e),
{
    if action.requires_document() && app.raw_data.len() == 0 {
        ui.status_message = "No open document".to_string();
        return MenuEffect::Done;
    }
    let destructive = match action {
        MenuAction::Exit | MenuAction::Open => true,
        _ => false,
    };
    if destructive && app.is_dirty() {
        ui.active_dialog = Some(
            Dialog::Confirmation {
                title: "Unsaved Changes".to_string(),
                message: "You have unsaved changes. Proceed?".to_string(),
                action,
            },
        );
        return MenuEffect::Done;
    }
    execute_menu_action(app, ui, action, analyze)
}

/// The name a project file records for the right pane.
pub open spec fn right_pane_name(p: RightPane) -> Seq<char> {
    match p {
        RightPane::Closed => "None"@,
        RightPane::HexDump => "HexDump"@,
        RightPane::Sprites => "Sprites"@,
        RightPane::Charset => "Charset"@,
        RightPane::Blocks => "Blocks"@,
    }
}

fn right_pane_text(p: RightPane) -> (s: String)
    ensures
        s@ == right_pane_name(p),
{
    match p {
        RightPane::Closed => "None".to_string(),
        RightPane::HexDump => "HexDump".to_string(),
        RightPane::Sprites => "Sprites".to_string(),
        RightPane::Charset => "Charset".to_string(),
        RightPane::Blocks => "Blocks".to_string(),
    }
}

/// The interface state a save records: the cursor line's address, the
/// addresses under the hex dump, sprite and character cursors (when a
/// document is open), the right pane, the view modes, the splitters and
/// the selected overview entry.
pub open spec fn save_context_of(app: &AppState, ui: UiState, c: ProjectSaveContext) -> bool {
    let open = app.raw_data@.len() > 0;
    &&& c.cursor_address == if ui.cursor_index < app.disassembly@.len() {
        Some(app.disassembly@[ui.cursor_index as int].address)
    } else {
        None
    }
    &&& c.hex_dump_cursor_address == if open {
        Some(wrap16(hex_row_address(app.origin, ui.hex_cursor_index)) as u16)
    } else {
        None
    }
    &&& c.sprites_cursor_address == if open {
        Some(wrap16(sprite_address(app.origin, ui.sprites_cursor_index)) as u16)
    } else {
        None
    }
    &&& c.charset_cursor_address == if open {
        Some(wrap16(charset_address(app.origin, ui.charset_cursor_index)) as u16)
    } else {
        None
    }
    &&& c.right_pane_visible matches Some(name) && name@ == right_pane_name(ui.right_pane)
    &&& c.sprite_multicolor_mode == ui.sprite_multicolor_mode
    &&& c.charset_multicolor_mode == ui.charset_multicolor_mode
    &&& c.hexdump_view_mode == ui.hexdump_view_mode
    &&& c.splitters@ == app.splitters@
    &&& c.blocks_view_cursor == ui.blocks_selected
}

/// The interface state to record with a save (see `save_context_of`).
pub fn create_save_context(app: &AppState, ui: &UiState) -> (c: ProjectSaveContext)
    requires
        app.raw_data@.len() > 0 ==> view_addresses_fit(app, *ui),
    ensures
        save_context_of(app, *ui, c),
{
    let cursor_address = if ui.cursor_index < app.disassembly.len() {
        Some(app.disassembly[ui.cursor_index].address)
    } else {
        None
    };
    let open = app.raw_data.len() > 0;
    let origin = app.origin as usize;
    let (hex, sprite, charset) = if open {
        let h = origin - origin % 16 + ui.hex_cursor_index * 16;
        let sp = origin + (64 - origin % 64) % 64 + ui.sprites_cursor_index * 64;
        let ch = (origin / 1024) * 1024 + ui.charset_cursor_index * 8;
        proof {
            crate::blocks::lemma_trunc16(h);
            crate::blocks::lemma_trunc16(sp);
            crate::blocks::lemma_trunc16(ch);
        }
        (Some(h as u16), Some(sp as u16), Some(ch as u16))
    } else {
        (None, None, None)
    };
    ProjectSaveContext {
        cursor_address,
        hex_dump_cursor_address: hex,
        sprites_cursor_address: sprite,
        right_pane_visible: Some(right_pane_text(ui.right_pane)),
        charset_cursor_address: charset,
        sprite_multicolor_mode: ui.sprite_multicolor_mode,
        charset_multicolor_mode: ui.charset_multicolor_mode,
        hexdump_view_mode: ui.hexdump_view_mode,
        splitters: app.splitters.clone(),
        blocks_view_cursor: ui.blocks_selected,
    }
}

/// A key pressed while the menu bar is open.
#[derive(Clone, Copy, Debug, PartialEq, Eq, Structural)]
pub enum MenuKey {
    Escape,
    Right,
    Left,
    Down,
    Up,
    Enter,
    Other,
}

/// What the open menu made of a key.
#[derive(Clone, Copy, Debug, PartialEq, Eq, Structural)]
pub enum MenuKeyResult {
    Handled,
    Ignored,
    /// An enabled entry was chosen; the menu closed.
    Action(MenuAction),
}

/// The menu has menus, and its selections lie inside them.
pub open spec fn menu_well_formed(m: &MenuState) -> bool {
    &&& m.categories@.len() > 0
    &&& m.selected_category < m.categories@.len()
    &&& forall|c: int|
        0 <= c < m.categories@.len() ==> #[trigger] m.categories@[c].items@.len() < usize::MAX
    &&& match m.selected_item {
        Some(i) => i < selected_items(m).len(),
        None => true,
    }
}

/// What a key does to the open menu: Escape closes it; the arrows move
/// between menus and entries (see `MenuState`); Enter chooses the
/// selected entry (a disabled one is refused in the status line), or
/// selects the first selectable entry when none is selected.
pub open spec fn menu_key_handled(u0: UiState, u1: UiState, key: MenuKey, r: MenuKeyResult) -> bool {
    let m0 = u0.menu;
    let m1 = u1.menu;
    let menu_only = u1 == UiState { menu: m1, ..u0 };
    let same_menu = m1.active == m0.active && m1.categories == m0.categories;
    let n = m0.categories@.len() as int;
    match key {
        MenuKey::Escape => {
            &&& shows(
                UiState { menu: MenuState { active: false, selected_item: None, ..m0 }, ..u0 },
                u1,
                u0.active_dialog,
                "Ready"@,
            )
            &&& r == MenuKeyResult::Handled
        },
        MenuKey::Right | MenuKey::Left => {
            &&& menu_only && same_menu && r == MenuKeyResult::Handled
            &&& m1.selected_category == if key == MenuKey::Right {
                (m0.selected_category + 1) % n
            } else if m0.selected_category == 0 {
                n - 1
            } else {
                m0.selected_category - 1
            }
            &&& m0.active ==> first_selectable(selected_items(&m1), m1.selected_item)
            &&& !m0.active ==> m1.selected_item == m0.selected_item
        },
        MenuKey::Down | MenuKey::Up => {
            let current = match m0.selected_item {
                Some(c) => c as int,
                None => 0,
            };
            &&& menu_only && same_menu && r == MenuKeyResult::Handled
            &&& m1.selected_category == m0.selected_category
            &&& first_reached(
                selected_items(&m0),
                key == MenuKey::Down,
                current,
                m0.selected_item,
                m1.selected_item,
            )
        },
        MenuKey::Enter => match m0.selected_item {
            Some(i) => {
                let item = selected_items(&m0)[i as int];
                if item.disabled {
                    shows(u0, u1, u0.active_dialog, "Item is disabled"@) && r == MenuKeyResult::Handled
                } else {
                    match item.action {
                        Some(a) => u1 == UiState {
                            menu: MenuState { active: false, selected_item: None, ..m0 },
                            ..u0
                        } && r == MenuKeyResult::Action(a),
                        None => u1 == u0 && r == MenuKeyResult::Handled,
                    }
                }
            },
            None => {
                &&& menu_only && same_menu && r == MenuKeyResult::Handled
                &&& m1.selected_category == m0.selected_category
                &&& first_selectable(selected_items(&m0), m1.selected_item)
            },
        },
        MenuKey::Other => u1 == u0 && r == MenuKeyResult::Ignored,
    }
}

/// The menu bar as an input handler.
pub struct Menu;

impl Menu {
    /// Handles a key pressed while the menu bar is open (see
    /// `menu_key_handled`).
    pub fn handle_input(&mut self, ui: &mut UiState, key: MenuKey) -> (r: MenuKeyResult)
        requires
            menu_well_formed(&old(ui).menu),
        ensures
            menu_key_handled(*old(ui), *final(ui), key, r),
    {
        handle_menu_key(ui, key)
    }
}

fn handle_menu_key(ui: &mut UiState, key: MenuKey) -> (r: MenuKeyResult)
    requires
        menu_well_formed(&old(ui).menu),
    ensures
        menu_key_handled(*old(ui), *final(ui), key, r),
{
    match key {
        MenuKey::Escape => {
            ui.menu.active = false;
            ui.menu.selected_item = None;
            ui.status_message = "Ready".to_string();
            MenuKeyResult::Handled
        },
        MenuKey::Right => {
            let _ = ui.menu.categories.len();
            ui.menu.next_category();
            MenuKeyResult::Handled
        },
        MenuKey::Left => {
            ui.menu.previous_category();
            MenuKeyResult::Handled
        },
        MenuKey::Down => {
            ui.menu.next_item();
            MenuKeyResult::Handled
        },
        MenuKey::Up => {
            ui.menu.previous_item();
            MenuKeyResult::Handled
        },
        MenuKey::Enter => {
            match ui.menu.selected_item {
                Some(i) => {
                    let c = ui.menu.selected_category;
                    let item = &ui.menu.categories[c].items[i];
                    if !item.disabled {
                        match item.action {
                            Some(a) => {
                                ui.menu.active = false;
                                ui.menu.selected_item = None;
                                MenuKeyResult::Action(a)
                            },
                            None => MenuKeyResult::Handled,
                        }
                    } else {
                        ui.status_message = "Item is disabled".to_string();
                        MenuKeyResult::Handled
                    }
                },
                None => {
                    ui.menu.select_first_enabled_item();
                    MenuKeyResult::Handled
                },
            }
        },
        MenuKey::Other => MenuKeyResult::Ignored,
    }
}

/// Whether the blocks overview can be built (see `overview_ready`).
pub fn overview_fits(app: &AppState) -> (r: bool)
    ensures
        r == overview_ready(app),
{
    let runs = app.get_compressed_blocks();
    let mut k: usize = 0;
    while k < runs.len()
        invariant
            k <= runs@.len(),
            runs@ == compressed(app.block_types@, app.collapsed_blocks@),
            forall|j: int|
                0 <= j < k ==> #[trigger] crate::blocks::run_first_addr(runs@[j], app.origin)
                    <= crate::blocks::run_last_addr(runs@[j], app.origin),
        decreases runs@.len() - k,
    {
        let b = runs[k];
        proof {
            crate::blocks::lemma_trunc16(b.start);
            crate::blocks::lemma_trunc16(b.end);
        }
        if app.origin.wrapping_add(b.start as u16) > app.origin.wrapping_add(b.end as u16) {
            assert(!(crate::blocks::run_first_addr(runs@[k as int], app.origin)
                <= crate::blocks::run_last_addr(runs@[k as int], app.origin)));
            return false;
        }
        k = k + 1;
    }
    true
}

/// Whether the view cursors give addresses that fit (see
/// `view_addresses_fit`).
pub fn view_addresses_fit_now(app: &AppState, ui: &UiState) -> (r: bool)
    ensures
        r == view_addresses_fit(app, *ui),
{
    let origin = app.origin as usize;
    let hex_base = origin - origin % 16;
    let sprite_base = origin + (64 - origin % 64) % 64;
    let char_base = (origin / 1024) * 1024;
    ui.hex_cursor_index <= (usize::MAX - hex_base) / 16 && ui.sprites_cursor_index <= (usize::MAX
        - sprite_base) / 64 && ui.charset_cursor_index <= (usize::MAX - char_base) / 8
}

/// Whether the focused side view's address fits (see
/// `pane_address_fits`).
pub fn pane_address_fits_now(app: &AppState, ui: &UiState) -> (r: bool)
    ensures
        r == pane_address_fits(app, *ui),
{
    let origin = app.origin as usize;
    match ui.active_pane {
        ActivePane::HexDump => ui.hex_cursor_index <= (usize::MAX - (origin - origin % 16)) / 16,
        ActivePane::Sprites => ui.sprites_cursor_index <= (usize::MAX - (origin + (64 - origin
            % 64) % 64)) / 64,
        ActivePane::Charset => ui.charset_cursor_index <= (usize::MAX - (origin / 1024) * 1024)
            / 8,
        _ => true,
    }
}

/// Whether the selected lines can get a new type (see `region_ok`).
#[verifier::spinoff_prover]
#[verifier::rlimit(40)]
pub fn region_ok_now(app: &AppState, sel: Option<usize>, cur: usize) -> (r: bool)
    ensures
        r == region_ok(app, sel, cur),
{
    let n = app.disassembly.len();
    let (first, last) = match sel {
        Some(s0) => if s0 < cur {
            (s0, cur)
        } else {
            (cur, s0)
        },
        None => (cur, cur),
    };
    if last >= n {
        return true;
    }
    let end_line = &app.disassembly[last];
    proof {
        crate::blocks::lemma_trunc16(end_line.bytes@.len() as usize);
    }
    let len16 = end_line.bytes.len() as u16;
    let address = end_line.address;
    if (address as u32) + (len16 as u32) < 1 || (address as u32) + (len16 as u32) - 1 >= 65535 {
        return false;
    }
    let last_address = address + len16 - 1;
    assert(last_address as int == crate::state::line_last_address(*end_line));
    let start = app.disassembly[first].address.wrapping_sub(app.origin) as usize;
    let end = last_address.wrapping_sub(app.origin) as usize;
    assert(crate::state::region_offsets(app.disassembly@, app.origin, sel, cur) == Some(
        (start as int, end as int),
    ));
    let size = app.block_types.len();
    start >= size || (end < size && start <= end + 1)
}

/// Whether a block type can be set where the action would set it (see
/// `block_type_ready`).
pub fn block_type_ready_now(app: &AppState, ui: &UiState, t: BlockType) -> (r: bool)
    ensures
        r == block_type_ready(app, *ui, t),
{
    let even = t == BlockType::LoHi || t == BlockType::HiLo;
    if ui.active_pane == ActivePane::Blocks {
        if !overview_fits(app) {
            return false;
        }
        let items = app.get_blocks_view_items();
        match ui.blocks_selected {
            Some(i) => {
                if i < items.len() {
                    match items[i] {
                        BlockItem::Block { start, end, .. } => {
                            proof {
                                lemma_odd_count(start as int, end as int);
                            }
                            let odd = even && (end % 2) == (start % 2);
                            odd || region_ok_now(app, Some(start as usize), end as usize)
                        },
                        _ => true,
                    }
                } else {
                    true
                }
            },
            None => true,
        }
    } else {
        match ui.selection_start {
            Some(s0) => {
                let cur = ui.cursor_index;
                let (first, last) = if s0 < cur {
                    (s0, cur)
                } else {
                    (cur, s0)
                };
                proof {
                    lemma_odd_count(first as int, last as int);
                }
                let odd = even && (last - first) % 2 == 0;
                odd || region_ok_now(app, Some(first), last)
            },
            None => even || region_ok_now(app, None, ui.cursor_index),
        }
    }
}

/// Whether `action` can run on this document (see `action_ready`).
pub fn action_ready_now(action: MenuAction, app: &AppState, ui: &UiState) -> (r: bool)
    ensures
        r == action_ready(action, app, *ui),
{
    match action {
        MenuAction::JumpToOperand => (ui.active_pane != ActivePane::Blocks || overview_fits(app))
            && pane_address_fits_now(app, ui),
        MenuAction::ToggleSplitter | MenuAction::ToggleCollapsedBlock => ui.active_pane
            != ActivePane::Blocks || overview_fits(app),
        MenuAction::Code => block_type_ready_now(app, ui, BlockType::Code),
        MenuAction::Byte => block_type_ready_now(app, ui, BlockType::DataByte),
        MenuAction::Word => block_type_ready_now(app, ui, BlockType::DataWord),
        MenuAction::SetExternalFile => block_type_ready_now(app, ui, BlockType::ExternalFile),
        MenuAction::Address => block_type_ready_now(app, ui, BlockType::Address),
        MenuAction::Text => block_type_ready_now(app, ui, BlockType::Text),
        MenuAction::Screencode => block_type_ready_now(app, ui, BlockType::Screencode),
        MenuAction::Undefined => block_type_ready_now(app, ui, BlockType::Undefined),
        MenuAction::SetLoHi => block_type_ready_now(app, ui, BlockType::LoHi),
        MenuAction::SetHiLo => block_type_ready_now(app, ui, BlockType::HiLo),
        _ => true,
    }
}

/// Whether the menu is well formed (see `menu_well_formed`).
pub fn menu_well_formed_now(m: &MenuState) -> (r: bool)
    ensures
        r == menu_well_formed(m),
{
    let n = m.categories.len();
    if n == 0 || m.selected_category >= n {
        return false;
    }
    let mut c: usize = 0;
    while c < n
        invariant
            c <= n,
            n == m.categories@.len(),
            forall|j: int| 0 <= j < c ==> #[trigger] m.categories@[j].items@.len() < usize::MAX,
        decreases n - c,
    {
        if m.categories[c].items.len() == usize::MAX {
            assert(!(m.categories@[c as int].items@.len() < usize::MAX));
            return false;
        }
        c = c + 1;
    }
    match m.selected_item {
        Some(i) => i < m.categories[m.selected_category].items.len(),
        None => true,
    }
}

/// Stepping the hex dump character set forward and then back (or back and
/// then forward) returns to where it was.
pub proof fn law_hexdump_modes_inverse(m: HexdumpViewMode)
    ensures
        previous_hexdump_mode(next_hexdump_mode(m)) == m,
        next_hexdump_mode(previous_hexdump_mode(m)) == m,
{
}

/// Cycling an immediate format forward and then back returns to it, and so
/// does back and then forward, except from the negative decimal form of a
/// value of at most 128, which the cycle does not offer.
pub proof fn law_immediate_format_cycle_inverse(f: ImmediateFormat, value: u8)
    requires
        !(f == ImmediateFormat::NegativeDecimal && value <= 128),
    ensures
        cycled_format(cycled_format(f, value, true), value, false) == f,
        cycled_format(cycled_format(f, value, false), value, true) == f,
{
}

/// Four steps of the hex dump character set in one direction come back to
/// the start.
pub proof fn law_hexdump_modes_cycle(m: HexdumpViewMode)
    ensures
        next_hexdump_mode(next_hexdump_mode(next_hexdump_mode(next_hexdump_mode(m)))) == m,
{
}

/// Reports how a save the host made for `MenuEffect::SaveProject` went:
/// "Project saved", or "Error saving: " and the error.
pub fn report_save(ui: &mut UiState, outcome: Result<(), String>)
    ensures
        shows(
            *old(ui),
            *final(ui),
            old(ui).active_dialog,
            match outcome {
                Ok(()) => "Project saved"@,
                Err(e) => "Error saving: "@ + e@,
            },
        ),
{
    ui.status_message = match outcome {
        Ok(()) => "Project saved".to_string(),
        Err(e) => joined("Error saving: ", e.as_str()),
    };
}

/// Reports how an export the host made for `MenuEffect::ExportProject`
/// went: "Project Exported", or "Error exporting: " and the error.
pub fn report_export(ui: &mut UiState, outcome: Result<(), String>)
    ensures
        shows(
            *old(ui),
            *final(ui),
            old(ui).active_dialog,
            match outcome {
                Ok(()) => "Project Exported"@,
                Err(e) => "Error exporting: "@ + e@,
            },
        ),
{
    ui.status_message = match outcome {
        Ok(()) => "Project Exported".to_string(),
        Err(e) => joined("Error exporting: ", e.as_str()),
    };
}


/// The blocks overview covers the image: every byte offset lies in
/// exactly one of its block entries, each entry shows the type and
/// collapsed mark of the bytes it covers, the block entries follow each other
/// in offset order without gaps, and each splitter entry comes right
/// before the entry that starts at it.
pub proof fn law_overview_covers_image(app: &AppState)
    requires
        overview_ready(app),
        app.block_types@.len() <= 65536,
    ensures
        crate::blocks::tiles(overview(app), 0, app.block_types@.len() - 1),
        crate::blocks::splitters_lead(overview(app), app.splitters@, app.origin),
        forall|o: int|
            0 <= o < app.block_types@.len() ==> #[trigger] crate::blocks::offset_covered(
                overview(app),
                o,
            ),
        forall|i: int, j: int, o: int|
            0 <= i < overview(app).len() && 0 <= j < overview(app).len()
                && #[trigger] crate::blocks::entry_covers(overview(app)[i], o)
                && #[trigger] crate::blocks::entry_covers(overview(app)[j], o) ==> i == j,
        forall|i: int|
            0 <= i < overview(app).len() ==> crate::blocks::entry_typed(
                #[trigger] overview(app)[i],
                app.block_types@,
                app.collapsed_blocks@,
            ),
{
    crate::blocks::lemma_overview_tiles(
        app.block_types@,
        app.collapsed_blocks@,
        app.splitters@,
        app.origin,
    );
}


/// "Jump to operand" from the hex dump goes to the start of the row under
/// the cursor: rows are 16 bytes from the multiple of 16 at or below the
/// origin, and addresses wrap at 16 bits.
#[verifier::spinoff_prover]
pub proof fn law_hex_dump_jump_target(app: &AppState, ui: UiState, base: int)
    requires
        ui.active_pane == ActivePane::HexDump,
        crate::sync::aligned_floor(base, app.origin as int, 16),
    ensures
        jump_target(app, ui) == Some(((base + 16 * ui.hex_cursor_index) % 65536) as u16),
{
    assert(base == app.origin - app.origin % 16);
}

/// "Jump to operand" from the sprites view goes to the sprite under the
/// cursor: sprites are 64 bytes from the first multiple of 64 at or after
/// the origin, and addresses wrap at 16 bits.
#[verifier::spinoff_prover]
pub proof fn law_sprites_jump_target(app: &AppState, ui: UiState, base: int)
    requires
        ui.active_pane == ActivePane::Sprites,
        base % 64 == 0,
        app.origin <= base < app.origin + 64,
    ensures
        jump_target(app, ui) == Some(((base + 64 * ui.sprites_cursor_index) % 65536) as u16),
{
    assert(base == app.origin + (64 - app.origin % 64) % 64);
}

/// "Jump to operand" from the character set view goes to the character
/// under the cursor: characters are 8 bytes from the 1 KiB boundary at or
/// below the origin, and addresses wrap at 16 bits.
#[verifier::spinoff_prover]
pub proof fn law_charset_jump_target(app: &AppState, ui: UiState, base: int)
    requires
        ui.active_pane == ActivePane::Charset,
        crate::sync::aligned_floor(base, app.origin as int, 1024),
    ensures
        jump_target(app, ui) == Some(((base + 8 * ui.charset_cursor_index) % 65536) as u16),
{
    assert(base == (app.origin / 1024) * 1024);
}

/// "Jump to operand" from a side view goes to the address a save records
/// for that view's cursor.
#[verifier::spinoff_prover]
pub proof fn law_jump_matches_save_context(app: &AppState, ui: UiState, c: ProjectSaveContext)
    requires
        app.raw_data@.len() > 0,
        save_context_of(app, ui, c),
    ensures
        ui.active_pane == ActivePane::HexDump ==> c.hex_dump_cursor_address == jump_target(app, ui),
        ui.active_pane == ActivePane::Sprites ==> c.sprites_cursor_address == jump_target(app, ui),
        ui.active_pane == ActivePane::Charset ==> c.charset_cursor_address == jump_target(app, ui),
{
}

} // verus!
