//! Keeping the side views in step with the listing cursor, and the listing
//! with the side views.
use crate::actions::{
    charset_address, first_covering, hex_row_address, lemma_first_match_unique, overview,
    overview_ready, pane_address_fits,
};
use crate::blocks::{item_holds, wrap16, BlockItem};
use crate::listing::{covers_address, is_first_match};
use crate::state::AppState;
use crate::ui::{ActivePane, RightPane, UiState};
use vstd::prelude::*;

verus! {

/// Number of hex dump rows of an image of `len` bytes at `origin` (rows
/// start at multiples of 16).
pub open spec fn hex_rows(origin: u16, len: nat) -> int {
    (len + origin % 16 + 15) / 16
}

/// The hex dump row holding address `addr`, when it is not before the
/// first row.
pub open spec fn hex_row_of(origin: u16, addr: int) -> Option<int> {
    let aligned = origin - origin % 16;
    if addr >= aligned {
        Some((addr - aligned) / 16)
    } else {
        None
    }
}

/// First address of the character set view (the 1 KiB boundary at or
/// below the origin).
pub open spec fn charset_base(origin: u16) -> int {
    (origin / 1024) * 1024
}

/// Number of eight-byte characters from the charset base to the end of
/// the image.
pub open spec fn char_count(origin: u16, len: nat) -> int {
    (origin + len - charset_base(origin) + 7) / 8
}

/// The character holding address `addr`, when it is not before the base.
pub open spec fn char_of(origin: u16, addr: int) -> Option<int> {
    if addr >= charset_base(origin) {
        Some((addr - charset_base(origin)) / 8)
    } else {
        None
    }
}

/// The first overview entry holding `addr`.
pub open spec fn first_entry(app: &AppState, addr: u16) -> Option<usize> {
    choose|r: Option<usize>| is_first_match(overview(app), item_holds(app.origin, addr), r)
}

/// `new` if it is `Some` and below `bound`, else `old`.
pub open spec fn moved_to(old: usize, new: Option<int>, bound: int) -> usize {
    match new {
        Some(v) if v < bound => v as usize,
        _ => old,
    }
}

/// The interface after the views were brought in step. From the listing:
/// the overview selects the entry holding the cursor address, the hex dump
/// and character set cursors move to it (when their view is shown and
/// syncing is on). From the hex dump or the character set: the listing
/// cursor moves to the line covering the view's address, and the other of
/// the two views follows.
pub open spec fn views_synced(app: &AppState, u0: UiState, u1: UiState) -> bool {
    let lines = app.disassembly@;
    let cfg = app.system_config;
    let origin = app.origin;
    let len = app.raw_data@.len();
    let hex_addr = hex_row_address(origin, u0.hex_cursor_index);
    let char_addr = charset_address(origin, u0.charset_cursor_index);
    match u0.active_pane {
        ActivePane::Disassembly => if u0.cursor_index < lines.len() {
            let a = lines[u0.cursor_index as int].address;
            u1 == UiState {
                blocks_selected: if u0.right_pane == RightPane::Blocks && cfg.sync_blocks_view
                    && first_entry(app, a) is Some {
                    first_entry(app, a)
                } else {
                    u0.blocks_selected
                },
                hex_cursor_index: if u0.right_pane == RightPane::HexDump && cfg.sync_hex_dump {
                    moved_to(u0.hex_cursor_index, hex_row_of(origin, a as int), hex_rows(origin, len))
                } else {
                    u0.hex_cursor_index
                },
                charset_cursor_index: if u0.right_pane == RightPane::Charset && cfg.sync_hex_dump {
                    moved_to(
                        u0.charset_cursor_index,
                        char_of(origin, a as int),
                        char_count(origin, len),
                    )
                } else {
                    u0.charset_cursor_index
                },
                ..u0
            }
        } else {
            u1 == u0
        },
        ActivePane::HexDump => u1 == UiState {
            cursor_index: if cfg.sync_hex_dump && first_covering(lines, wrap16(hex_addr) as u16) is Some {
                first_covering(lines, wrap16(hex_addr) as u16)->0
            } else {
                u0.cursor_index
            },
            charset_cursor_index: if u0.right_pane == RightPane::Charset && cfg.sync_hex_dump {
                moved_to(u0.charset_cursor_index, char_of(origin, hex_addr), char_count(origin, len))
            } else {
                u0.charset_cursor_index
            },
            ..u0
        },
        ActivePane::Charset => u1 == UiState {
            cursor_index: if cfg.sync_hex_dump && first_covering(lines, wrap16(char_addr) as u16) is Some {
                first_covering(lines, wrap16(char_addr) as u16)->0
            } else {
                u0.cursor_index
            },
            hex_cursor_index: if u0.right_pane == RightPane::HexDump && cfg.sync_hex_dump {
                moved_to(u0.hex_cursor_index, hex_row_of(origin, char_addr), hex_rows(origin, len))
            } else {
                u0.hex_cursor_index
            },
            ..u0
        },
        _ => u1 == u0,
    }
}

/// What `views_synced` needs: the overview can be built when the listing
/// drives it, and the focused side view's address fits when that view
/// drives the others.
pub open spec fn sync_ready(app: &AppState, ui: UiState) -> bool {
    &&& app.system_config.sync_hex_dump ==> pane_address_fits(app, ui)
    &&& (ui.active_pane == ActivePane::Disassembly && ui.right_pane == RightPane::Blocks
        && app.system_config.sync_blocks_view ==> overview_ready(app))
}

fn hex_row_count(origin: usize, len: usize) -> (r: usize)
    requires
        origin < 65536,
    ensures
        r == (len + origin % 16 + 15) / 16,
{
    len / 16 + (len % 16 + origin % 16 + 15) / 16
}

fn char_total(origin: usize, len: usize) -> (r: usize)
    requires
        origin < 65536,
    ensures
        r == (origin + len - (origin / 1024) * 1024 + 7) / 8,
{
    let below = origin - (origin / 1024) * 1024;
    len / 8 + (len % 8 + below + 7) / 8
}

fn row_for(origin: usize, addr: usize, current: usize, len: usize) -> (r: usize)
    requires
        origin < 65536,
    ensures
        r == moved_to(
            current,
            hex_row_of(origin as u16, addr as int),
            hex_rows(origin as u16, len as nat),
        ),
{
    let aligned = origin - origin % 16;
    if addr >= aligned {
        let row = (addr - aligned) / 16;
        if row < hex_row_count(origin, len) {
            return row;
        }
    }
    current
}

fn char_for(origin: usize, addr: usize, current: usize, len: usize) -> (r: usize)
    requires
        origin < 65536,
    ensures
        r == moved_to(
            current,
            char_of(origin as u16, addr as int),
            char_count(origin as u16, len as nat),
        ),
{
    let base = (origin / 1024) * 1024;
    if addr >= base {
        let index = (addr - base) / 8;
        if index < char_total(origin, len) {
            return index;
        }
    }
    current
}

/// Brings the views in step (see `views_synced`).
pub fn sync_views(app: &AppState, ui: &mut UiState)
    requires
        sync_ready(app, *old(ui)),
    ensures
        views_synced(app, *old(ui), *final(ui)),
{
    let origin = app.origin as usize;
    let len = app.raw_data.len();
    let sync_hex = app.system_config.sync_hex_dump;
    match ui.active_pane {
        ActivePane::Disassembly => {
            if ui.cursor_index < app.disassembly.len() {
                let a = app.disassembly[ui.cursor_index].address;
                if ui.right_pane == RightPane::Blocks && app.system_config.sync_blocks_view {
                    let items = app.get_blocks_view_items();
                    let found = crate::blocks::first_item_holding(&items, app.origin, a);
                    proof {
                        lemma_first_match_unique(
                            overview(app),
                            item_holds(app.origin, a),
                            found,
                            first_entry(app, a),
                        );
                    }
                    if found.is_some() {
                        ui.blocks_selected = found;
                    }
                }
                if ui.right_pane == RightPane::HexDump && sync_hex {
                    ui.hex_cursor_index = row_for(origin, a as usize, ui.hex_cursor_index, len);
                }
                if ui.right_pane == RightPane::Charset && sync_hex {
                    ui.charset_cursor_index = char_for(
                        origin,
                        a as usize,
                        ui.charset_cursor_index,
                        len,
                    );
                }
            }
        },
        ActivePane::HexDump => {
            if sync_hex {
                let hex_addr = origin - origin % 16 + ui.hex_cursor_index * 16;
                proof {
                    crate::blocks::lemma_trunc16(hex_addr);
                }
                let found = app.get_line_index_containing_address(hex_addr as u16);
                proof {
                    lemma_first_match_unique(
                        app.disassembly@,
                        covers_address(hex_addr as u16),
                        found,
                        first_covering(app.disassembly@, hex_addr as u16),
                    );
                }
                if let Some(idx) = found {
                    ui.cursor_index = idx;
                }
                if ui.right_pane == RightPane::Charset {
                    ui.charset_cursor_index = char_for(origin, hex_addr, ui.charset_cursor_index, len);
                }
            }
        },
        ActivePane::Charset => {
            if sync_hex {
                let char_addr = (origin / 1024) * 1024 + ui.charset_cursor_index * 8;
                if ui.right_pane == RightPane::HexDump {
                    ui.hex_cursor_index = row_for(origin, char_addr, ui.hex_cursor_index, len);
                }
                proof {
                    crate::blocks::lemma_trunc16(char_addr);
                }
                let found = app.get_line_index_containing_address(char_addr as u16);
                proof {
                    lemma_first_match_unique(
                        app.disassembly@,
                        covers_address(char_addr as u16),
                        found,
                        first_covering(app.disassembly@, char_addr as u16),
                    );
                }
                if let Some(idx) = found {
                    ui.cursor_index = idx;
                }
            }
        },
        _ => {},
    }
}

/// Whether the views can be brought in step (see `sync_ready`).
pub fn sync_ready_now(app: &AppState, ui: &UiState) -> (r: bool)
    ensures
        r == sync_ready(app, *ui),
{
    (!app.system_config.sync_hex_dump || crate::actions::pane_address_fits_now(app, ui)) && (!(ui.active_pane == ActivePane::Disassembly
        && ui.right_pane == RightPane::Blocks && app.system_config.sync_blocks_view)
        || crate::actions::overview_fits(app))
}


/// `base` is the multiple of `unit` at or below `addr`.
pub open spec fn aligned_floor(base: int, addr: int, unit: int) -> bool {
    base % unit == 0 && base <= addr < base + unit
}

/// The hex dump row chosen for an address holds it: rows are 16 bytes
/// starting at the multiple of 16 at or below the origin, and an address
/// before the first row has no row.
pub proof fn law_hex_row_holds_address(origin: u16, addr: int, base: int)
    requires
        aligned_floor(base, origin as int, 16),
    ensures
        match hex_row_of(origin, addr) {
            Some(row) => row >= 0 && base + 16 * row <= addr < base + 16 * row + 16,
            None => addr < base,
        },
{
    assert(base == origin - origin % 16);
    match hex_row_of(origin, addr) {
        Some(row) => {
            assert(row == (addr - base) / 16);
        },
        None => {},
    }
}

/// The character chosen for an address holds it: characters are 8 bytes
/// starting at the 1 KiB boundary at or below the origin.
pub proof fn law_char_holds_address(origin: u16, addr: int, base: int)
    requires
        aligned_floor(base, origin as int, 1024),
    ensures
        match char_of(origin, addr) {
            Some(c) => c >= 0 && base + 8 * c <= addr < base + 8 * c + 8,
            None => addr < base,
        },
{
    assert(base == charset_base(origin));
    match char_of(origin, addr) {
        Some(c) => {
            assert(c == (addr - base) / 8);
        },
        None => {},
    }
}

} // verus!
