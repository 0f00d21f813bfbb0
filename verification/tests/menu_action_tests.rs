use regenerator2000::actions::{
    action_ready_now, create_save_context, execute_menu_action, handle_menu_action,
    overview_fits, report_export, report_save, restore_cursor, update_hexdump_status,
    CursorRestore, Menu, MenuEffect, MenuKey, MenuKeyResult,
};
use regenerator2000::blocks::BlockType;
use regenerator2000::document::{HexdumpViewMode, ImmediateFormat, Label, LabelKind, LabelType};
use regenerator2000::listing::{AddressingMode, DisassemblyLine, Opcode};
use regenerator2000::menu::MenuAction;
use regenerator2000::state::AppState;
use regenerator2000::sync::sync_views;
use regenerator2000::ui::{ActivePane, CommentKind, Dialog, RightPane, UiState};
use std::collections::BTreeMap;

type Analysis = (BTreeMap<u16, Vec<Label>>, BTreeMap<u16, Vec<u16>>);

fn no_analysis(_app: &AppState) -> Analysis {
    (BTreeMap::new(), BTreeMap::new())
}

fn line(address: u16, bytes: Vec<u8>, mode: Option<AddressingMode>) -> DisassemblyLine {
    DisassemblyLine {
        address,
        bytes,
        mnemonic: String::new(),
        operand: String::new(),
        comment: String::new(),
        line_comment: None,
        label: None,
        opcode: mode.map(|mode| Opcode { mode }),
        show_bytes: true,
        target_address: None,
        comment_address: None,
        is_collapsed: false,
    }
}

fn label(name: &str, kind: LabelKind) -> Label {
    Label {
        name: name.to_string(),
        label_type: LabelType::AbsoluteAddress,
        kind,
    }
}

/// A small program at $1000: JMP $1005, BNE -2, LDA #$FF, then two NOPs.
fn program() -> AppState {
    let mut app = AppState::new();
    app.origin = 0x1000;
    app.raw_data = vec![0x4C, 0x05, 0x10, 0xD0, 0xFE, 0xA9, 0xFF, 0xEA, 0xEA];
    app.block_types = vec![BlockType::Code; 9];
    app.disassembly = vec![
        line(0x1000, vec![0x4C, 0x05, 0x10], Some(AddressingMode::Absolute)),
        line(0x1003, vec![0xD0, 0xFE], Some(AddressingMode::Relative)),
        line(0x1005, vec![0xA9, 0xFF], Some(AddressingMode::Immediate)),
        line(0x1007, vec![0xEA], Some(AddressingMode::Implied)),
        line(0x1008, vec![0xEA], Some(AddressingMode::Implied)),
    ];
    app
}

fn ui() -> UiState {
    UiState::new("/tmp".to_string())
}

#[test]
fn actions_needing_a_document_report_its_absence() {
    let mut app = AppState::new();
    let mut ui = ui();
    let e = handle_menu_action(&mut app, &mut ui, MenuAction::Code, &no_analysis);
    assert_eq!(e, MenuEffect::Done);
    assert_eq!(ui.status_message, "No open document");
    let e = handle_menu_action(&mut app, &mut ui, MenuAction::About, &no_analysis);
    assert_eq!(e, MenuEffect::Done);
    assert!(matches!(ui.active_dialog, Some(Dialog::About)));
    assert_eq!(ui.status_message, "About Regenerator 2000");
}

#[test]
fn leaving_with_unsaved_changes_asks_first() {
    let mut app = program();
    let mut ui = ui();
    app.set_block_type_region(BlockType::DataByte, None, 4, &no_analysis);
    handle_menu_action(&mut app, &mut ui, MenuAction::Exit, &no_analysis);
    assert!(!ui.should_quit);
    match &ui.active_dialog {
        Some(Dialog::Confirmation {
            title,
            message,
            action,
        }) => {
            assert_eq!(title, "Unsaved Changes");
            assert_eq!(message, "You have unsaved changes. Proceed?");
            assert_eq!(*action, MenuAction::Exit);
        }
        _ => panic!("expected a confirmation dialog"),
    }
    execute_menu_action(&mut app, &mut ui, MenuAction::Exit, &no_analysis);
    assert!(ui.should_quit);
    assert_eq!(ui.status_message, "Action: Exit");
}

#[test]
fn saving_hands_the_write_to_the_host_or_asks_for_a_name() {
    let mut app = program();
    let mut ui = ui();
    let e = handle_menu_action(&mut app, &mut ui, MenuAction::Save, &no_analysis);
    assert_eq!(e, MenuEffect::Done);
    assert!(matches!(ui.active_dialog, Some(Dialog::SaveAs)));
    assert_eq!(ui.status_message, "Enter Project filename");
    app.project_path = Some("x.regen2000proj".to_string());
    let e = handle_menu_action(&mut app, &mut ui, MenuAction::Save, &no_analysis);
    assert_eq!(e, MenuEffect::SaveProject);
    app.export_path = Some("x.asm".to_string());
    let e = handle_menu_action(&mut app, &mut ui, MenuAction::ExportProject, &no_analysis);
    assert_eq!(e, MenuEffect::ExportProject("x.asm".to_string()));
}

#[test]
fn jump_to_operand_follows_absolute_and_branch_operands() {
    let mut app = program();
    let mut ui = ui();
    handle_menu_action(&mut app, &mut ui, MenuAction::JumpToOperand, &no_analysis);
    assert_eq!(ui.cursor_index, 2);
    assert_eq!(ui.status_message, "Jumped to $1005");
    assert_eq!(ui.navigation_history, vec![(ActivePane::Disassembly, 0)]);

    ui.cursor_index = 1;
    handle_menu_action(&mut app, &mut ui, MenuAction::JumpToOperand, &no_analysis);
    // BNE $FE branches to itself.
    assert_eq!(ui.cursor_index, 1);
    assert_eq!(ui.status_message, "Jumped to $1003");

    ui.cursor_index = 3;
    handle_menu_action(&mut app, &mut ui, MenuAction::JumpToOperand, &no_analysis);
    assert_eq!(ui.status_message, "No target address");
}

#[test]
fn jump_to_an_address_outside_the_listing_is_reported() {
    let mut app = program();
    app.disassembly[0].bytes = vec![0x4C, 0x00, 0xC0];
    let mut ui = ui();
    handle_menu_action(&mut app, &mut ui, MenuAction::JumpToOperand, &no_analysis);
    assert_eq!(ui.status_message, "Address $C000 not found");
    assert_eq!(ui.cursor_index, 0);
}

#[test]
fn jump_from_the_hex_dump_goes_to_the_row_start() {
    let mut app = program();
    let mut ui = ui();
    ui.active_pane = ActivePane::HexDump;
    handle_menu_action(&mut app, &mut ui, MenuAction::JumpToOperand, &no_analysis);
    assert_eq!(ui.cursor_index, 0);
    assert_eq!(ui.active_pane, ActivePane::Disassembly);
    assert_eq!(ui.status_message, "Jumped to $1000");
}

#[test]
fn hex_dump_modes_cycle_both_ways() {
    let mut app = program();
    let mut ui = ui();
    handle_menu_action(&mut app, &mut ui, MenuAction::HexdumpViewModeNext, &no_analysis);
    assert_eq!(ui.hexdump_view_mode, HexdumpViewMode::ScreencodeUnshifted);
    assert_eq!(ui.status_message, "Hex Dump: Unshifted (Screencode)");
    handle_menu_action(&mut app, &mut ui, MenuAction::HexdumpViewModePrev, &no_analysis);
    handle_menu_action(&mut app, &mut ui, MenuAction::HexdumpViewModePrev, &no_analysis);
    assert_eq!(ui.hexdump_view_mode, HexdumpViewMode::PETSCIIUnshifted);
    assert_eq!(ui.status_message, "Hex Dump: Unshifted (PETSCII)");
    update_hexdump_status(&mut ui, HexdumpViewMode::PETSCIIShifted);
    assert_eq!(ui.status_message, "Hex Dump: Shifted (PETSCII)");
}

#[test]
fn side_views_toggle_and_take_the_focus() {
    let mut app = program();
    let mut ui = ui();
    handle_menu_action(&mut app, &mut ui, MenuAction::ToggleHexDump, &no_analysis);
    assert_eq!(ui.right_pane, RightPane::HexDump);
    assert_eq!(ui.active_pane, ActivePane::HexDump);
    assert_eq!(ui.status_message, "Hex Dump View Shown");
    handle_menu_action(&mut app, &mut ui, MenuAction::ToggleBlocksView, &no_analysis);
    assert_eq!(ui.right_pane, RightPane::Blocks);
    assert_eq!(ui.active_pane, ActivePane::Blocks);
    handle_menu_action(&mut app, &mut ui, MenuAction::ToggleBlocksView, &no_analysis);
    assert_eq!(ui.right_pane, RightPane::Closed);
    assert_eq!(ui.active_pane, ActivePane::Disassembly);
    assert_eq!(ui.status_message, "Blocks View Hidden");
}

#[test]
fn multicolor_modes_toggle() {
    let mut app = program();
    let mut ui = ui();
    handle_menu_action(&mut app, &mut ui, MenuAction::ToggleSpriteMulticolor, &no_analysis);
    assert!(ui.sprite_multicolor_mode);
    assert_eq!(ui.status_message, "Sprites: Multicolor Mode ON");
    handle_menu_action(&mut app, &mut ui, MenuAction::ToggleCharsetMulticolor, &no_analysis);
    handle_menu_action(&mut app, &mut ui, MenuAction::ToggleCharsetMulticolor, &no_analysis);
    assert!(!ui.charset_multicolor_mode);
    assert_eq!(ui.status_message, "Charset: Single Color Mode");
}

#[test]
fn immediate_formats_cycle_and_are_undoable() {
    let mut app = program();
    let mut ui = ui();
    ui.cursor_index = 2;
    let e = handle_menu_action(&mut app, &mut ui, MenuAction::NextImmediateFormat, &no_analysis);
    assert_eq!(e, MenuEffect::Relist(None));
    assert_eq!(
        app.immediate_value_formats.get(&0x1005),
        Some(&ImmediateFormat::InvertedHex)
    );
    handle_menu_action(&mut app, &mut ui, MenuAction::NextImmediateFormat, &no_analysis);
    handle_menu_action(&mut app, &mut ui, MenuAction::NextImmediateFormat, &no_analysis);
    // $FF is above 128: the negative decimal form comes next.
    assert_eq!(
        app.immediate_value_formats.get(&0x1005),
        Some(&ImmediateFormat::NegativeDecimal)
    );
    handle_menu_action(&mut app, &mut ui, MenuAction::PreviousImmediateFormat, &no_analysis);
    assert_eq!(
        app.immediate_value_formats.get(&0x1005),
        Some(&ImmediateFormat::Decimal)
    );
    app.undo_last_command();
    assert_eq!(
        app.immediate_value_formats.get(&0x1005),
        Some(&ImmediateFormat::NegativeDecimal)
    );
    // Not an immediate instruction: nothing happens.
    ui.cursor_index = 0;
    let e = handle_menu_action(&mut app, &mut ui, MenuAction::NextImmediateFormat, &no_analysis);
    assert_eq!(e, MenuEffect::Done);
}

#[test]
fn splitters_toggle_from_the_listing_and_leave_from_the_overview() {
    let mut app = program();
    let mut ui = ui();
    ui.cursor_index = 3;
    handle_menu_action(&mut app, &mut ui, MenuAction::ToggleSplitter, &no_analysis);
    assert!(app.splitters.contains(&0x1007));
    assert_eq!(ui.status_message, "Toggled splitter at $1007");
    ui.active_pane = ActivePane::Blocks;
    ui.blocks_selected = Some(1);
    handle_menu_action(&mut app, &mut ui, MenuAction::ToggleSplitter, &no_analysis);
    assert!(app.splitters.is_empty());
    assert_eq!(ui.status_message, "Removed splitter at $1007");
}

#[test]
fn blocks_collapse_and_expand_from_the_listing() {
    let mut app = program();
    let mut ui = ui();
    ui.cursor_index = 1;
    ui.selection_start = Some(0);
    let e = handle_menu_action(&mut app, &mut ui, MenuAction::ToggleCollapsedBlock, &no_analysis);
    assert_eq!(app.collapsed_blocks, vec![(0, 8)]);
    assert_eq!(e, MenuEffect::Relist(Some(CursorRestore::OnAddress(0x1000))));
    assert_eq!(ui.selection_start, None);
    assert_eq!(ui.status_message, "Block Collapsed");
    ui.cursor_index = 0;
    handle_menu_action(&mut app, &mut ui, MenuAction::ToggleCollapsedBlock, &no_analysis);
    assert!(app.collapsed_blocks.is_empty());
    assert_eq!(ui.status_message, "Block Uncollapsed");
}

#[test]
fn word_pairs_need_an_even_number_of_lines() {
    let mut app = program();
    let mut ui = ui();
    let e = handle_menu_action(&mut app, &mut ui, MenuAction::SetLoHi, &no_analysis);
    assert_eq!(e, MenuEffect::Done);
    assert_eq!(ui.status_message, "Error: Lo/Hi requires even number of bytes");
    assert_eq!(app.block_types, vec![BlockType::Code; 9]);
    ui.selection_start = Some(3);
    ui.cursor_index = 4;
    let e = handle_menu_action(&mut app, &mut ui, MenuAction::SetHiLo, &no_analysis);
    assert_eq!(ui.status_message, "Set block type to Hi/Lo");
    assert_eq!(app.block_types[7], BlockType::HiLo);
    assert_eq!(app.block_types[8], BlockType::HiLo);
    assert_eq!(e, MenuEffect::Relist(Some(CursorRestore::OnAddress(0x1008))));
    assert_eq!(ui.selection_start, None);
}

#[test]
fn bytes_lose_their_labels_and_their_references() {
    let mut app = program();
    let mut ui = ui();
    app.labels.insert(0x1005, vec![label("value", LabelKind::User)]);
    let mut refs = BTreeMap::new();
    refs.insert(0x1005u16, vec![0x1000u16]);
    app.cross_refs = refs;
    let analyse = |_app: &AppState| -> Analysis { (BTreeMap::new(), BTreeMap::new()) };
    ui.cursor_index = 2;
    let e = handle_menu_action(&mut app, &mut ui, MenuAction::Byte, &analyse);
    assert_eq!(e, MenuEffect::Relist(None));
    assert_eq!(ui.status_message, "Set block type to Byte");
    // The referencing JMP became data bytes too.
    assert_eq!(&app.block_types[0..3], &[BlockType::DataByte; 3]);
    assert_eq!(&app.block_types[5..7], &[BlockType::DataByte; 2]);
    assert_eq!(app.block_types[3], BlockType::Code);
    assert!(app.labels.is_empty());
    // One undo record for the marked JMP, one for the cursor line.
    assert_eq!(app.undo_stack.get_pointer(), 2);
}

#[test]
fn too_many_references_are_left_alone() {
    let mut app = program();
    let mut ui = ui();
    app.labels.insert(0x1005, vec![label("busy", LabelKind::User)]);
    app.cross_refs.insert(0x1005, vec![0x1000; 101]);
    ui.cursor_index = 2;
    handle_menu_action(&mut app, &mut ui, MenuAction::Byte, &no_analysis);
    assert_eq!(
        ui.status_message,
        "Set block type to Byte (label had too many references)"
    );
    assert_eq!(app.block_types[0], BlockType::Code);
    assert_eq!(app.block_types[5], BlockType::DataByte);
}

#[test]
fn analysis_installs_the_result_and_restores_the_cursor() {
    let mut app = program();
    let mut ui = ui();
    ui.cursor_index = 2;
    let analyse = |_app: &AppState| -> Analysis {
        let mut labels = BTreeMap::new();
        labels.insert(0x1005u16, vec![label("j1005", LabelKind::Auto)]);
        (labels, BTreeMap::new())
    };
    let e = handle_menu_action(&mut app, &mut ui, MenuAction::Analyze, &analyse);
    assert_eq!(ui.status_message, "Analysis Complete");
    assert_eq!(
        e,
        MenuEffect::Relist(Some(CursorRestore::AfterAnalysis(Some(0x1005))))
    );
    assert!(app.labels.contains_key(&0x1005));
    ui.cursor_index = 0;
    app.disassembly.remove(2);
    restore_cursor(&app, &mut ui, CursorRestore::AfterAnalysis(Some(0x1005)));
    // The line for $1005 is gone: the next line after it is chosen.
    assert_eq!(ui.cursor_index, 2);
}

#[test]
fn comment_dialogs_start_from_the_current_comment() {
    let mut app = program();
    let mut ui = ui();
    app.user_side_comments.insert(0x1003, "loop".to_string());
    ui.cursor_index = 1;
    handle_menu_action(&mut app, &mut ui, MenuAction::SideComment, &no_analysis);
    assert!(matches!(
        &ui.active_dialog,
        Some(Dialog::Comment(Some(c), CommentKind::Side)) if c == "loop"
    ));
    assert_eq!(ui.status_message, "Edit Side Comment at $1003");
    handle_menu_action(&mut app, &mut ui, MenuAction::LineComment, &no_analysis);
    assert!(matches!(
        &ui.active_dialog,
        Some(Dialog::Comment(None, CommentKind::Line))
    ));
}

#[test]
fn undo_and_redo_report_in_the_status_line() {
    let mut app = program();
    let mut ui = ui();
    handle_menu_action(&mut app, &mut ui, MenuAction::Undo, &no_analysis);
    assert_eq!(ui.status_message, "Nothing to undo");
    handle_menu_action(&mut app, &mut ui, MenuAction::Text, &no_analysis);
    handle_menu_action(&mut app, &mut ui, MenuAction::Undo, &no_analysis);
    assert_eq!(ui.status_message, "Undo: Set Block Type");
    handle_menu_action(&mut app, &mut ui, MenuAction::Redo, &no_analysis);
    assert_eq!(ui.status_message, "Redo: Set Block Type");
    assert_eq!(app.block_types[0], BlockType::Text);
}

#[test]
fn save_context_records_view_positions() {
    let mut app = program();
    app.origin = 0x1009;
    let mut ui = ui();
    ui.right_pane = RightPane::Closed;
    ui.hex_cursor_index = 2;
    ui.sprites_cursor_index = 1;
    ui.charset_cursor_index = 3;
    ui.cursor_index = 1;
    let ctx = create_save_context(&app, &ui);
    assert_eq!(ctx.cursor_address, Some(0x1003));
    assert_eq!(ctx.hex_dump_cursor_address, Some(0x1020));
    assert_eq!(ctx.sprites_cursor_address, Some(0x1080));
    assert_eq!(ctx.charset_cursor_address, Some(0x1018));
    assert_eq!(ctx.right_pane_visible, Some("None".to_string()));
}

#[test]
fn views_follow_the_listing_cursor() {
    let mut app = program();
    app.origin = 0x0ff8;
    let mut ui = ui();
    ui.right_pane = RightPane::HexDump;
    ui.cursor_index = 4;
    sync_views(&app, &mut ui);
    // $1008 is in the second hex row from $0FF0.
    assert_eq!(ui.hex_cursor_index, 1);
    ui.right_pane = RightPane::Charset;
    ui.cursor_index = 0;
    sync_views(&app, &mut ui);
    // $1000 is character 128 from the charset base $0C00.
    assert_eq!(ui.charset_cursor_index, 128);
    ui.cursor_index = 4;
    sync_views(&app, &mut ui);
    // $1008 lies past the end of the image: the charset cursor stays.
    assert_eq!(ui.charset_cursor_index, 128);
    ui.active_pane = ActivePane::HexDump;
    ui.hex_cursor_index = 0;
    sync_views(&app, &mut ui);
    // Row $0FF0 is covered by no line: the listing cursor stays.
    assert_eq!(ui.cursor_index, 4);
}

#[test]
fn menu_keys_move_choose_and_close() {
    let mut ui = ui();
    ui.menu.active = true;
    ui.menu.select_first_enabled_item();
    assert_eq!(ui.menu.selected_item, Some(0));
    assert_eq!(Menu.handle_input(&mut ui, MenuKey::Other), MenuKeyResult::Ignored);
    assert_eq!(Menu.handle_input(&mut ui, MenuKey::Right), MenuKeyResult::Handled);
    assert_eq!(ui.menu.selected_category, 1);
    assert_eq!(Menu.handle_input(&mut ui, MenuKey::Left), MenuKeyResult::Handled);
    assert_eq!(Menu.handle_input(&mut ui, MenuKey::Left), MenuKeyResult::Handled);
    assert_eq!(ui.menu.selected_category, 5);
    assert_eq!(Menu.handle_input(&mut ui, MenuKey::Right), MenuKeyResult::Handled);
    assert_eq!(ui.menu.selected_category, 0);
    let chosen = ui.menu.categories[0].items[ui.menu.selected_item.unwrap()]
        .action
        .unwrap();
    assert_eq!(
        Menu.handle_input(&mut ui, MenuKey::Enter),
        MenuKeyResult::Action(chosen)
    );
    assert!(!ui.menu.active);
    assert_eq!(ui.menu.selected_item, None);
    ui.menu.active = true;
    assert_eq!(Menu.handle_input(&mut ui, MenuKey::Escape), MenuKeyResult::Handled);
    assert!(!ui.menu.active);
    assert_eq!(ui.status_message, "Ready");
}

#[test]
fn disabled_menu_entries_are_refused() {
    let app = AppState::new();
    let mut ui = ui();
    ui.menu.update_availability(&app, 0, true, ActivePane::Disassembly);
    ui.menu.active = true;
    ui.menu.selected_category = 1;
    ui.menu.selected_item = Some(0);
    assert!(ui.menu.categories[1].items[0].disabled);
    assert_eq!(Menu.handle_input(&mut ui, MenuKey::Enter), MenuKeyResult::Handled);
    assert_eq!(ui.status_message, "Item is disabled");
    assert!(ui.menu.active);
}

#[test]
fn readiness_checks_catch_wrapping_documents() {
    let mut app = program();
    let ui = ui();
    assert!(overview_fits(&app));
    assert!(action_ready_now(MenuAction::Code, &app, &ui));
    // An image at $FFFE of four bytes wraps past $FFFF.
    app.origin = 0xfffe;
    app.raw_data = vec![0; 4];
    app.block_types = vec![BlockType::Code; 4];
    assert!(!overview_fits(&app));
    let mut blocks_ui = UiState::new(String::new());
    blocks_ui.active_pane = ActivePane::Blocks;
    assert!(!action_ready_now(MenuAction::ToggleSplitter, &app, &blocks_ui));
    assert!(action_ready_now(MenuAction::ToggleSplitter, &app, &ui));
    // A line that ends past $FFFF cannot get a block type.
    let mut end = program();
    end.disassembly[4].address = 0xffff;
    end.disassembly[4].bytes = vec![0xEA, 0xEA];
    let mut last_ui = UiState::new(String::new());
    last_ui.cursor_index = 4;
    assert!(!action_ready_now(MenuAction::Byte, &end, &last_ui));
}

#[test]
fn hex_dump_mode_steps_undo_each_other() {
    let mut app = program();
    let mut ui = ui();
    for _ in 0..4 {
        handle_menu_action(&mut app, &mut ui, MenuAction::HexdumpViewModeNext, &no_analysis);
    }
    assert_eq!(ui.hexdump_view_mode, HexdumpViewMode::ScreencodeShifted);
    handle_menu_action(&mut app, &mut ui, MenuAction::HexdumpViewModeNext, &no_analysis);
    handle_menu_action(&mut app, &mut ui, MenuAction::HexdumpViewModePrev, &no_analysis);
    assert_eq!(ui.hexdump_view_mode, HexdumpViewMode::ScreencodeShifted);
}

#[test]
fn immediate_format_steps_undo_each_other() {
    let mut app = program();
    let mut ui = ui();
    ui.cursor_index = 2;
    for _ in 0..3 {
        handle_menu_action(&mut app, &mut ui, MenuAction::NextImmediateFormat, &no_analysis);
        handle_menu_action(&mut app, &mut ui, MenuAction::NextImmediateFormat, &no_analysis);
        let here = app.immediate_value_formats.get(&0x1005).copied();
        handle_menu_action(&mut app, &mut ui, MenuAction::NextImmediateFormat, &no_analysis);
        handle_menu_action(&mut app, &mut ui, MenuAction::PreviousImmediateFormat, &no_analysis);
        assert_eq!(app.immediate_value_formats.get(&0x1005).copied(), here);
    }
}

#[test]
fn category_steps_undo_each_other() {
    let mut ui = ui();
    for _ in 0..6 {
        let c = ui.menu.selected_category;
        ui.menu.next_category();
        ui.menu.previous_category();
        assert_eq!(ui.menu.selected_category, c);
        ui.menu.next_category();
    }
    assert_eq!(ui.menu.selected_category, 0);
}

#[test]
fn collapsing_from_the_overview_restores_the_cursor_address() {
    let mut app = program();
    let mut ui = ui();
    ui.active_pane = ActivePane::Blocks;
    ui.blocks_selected = Some(0);
    ui.cursor_index = 3;
    let e = handle_menu_action(&mut app, &mut ui, MenuAction::ToggleCollapsedBlock, &no_analysis);
    assert_eq!(app.collapsed_blocks, vec![(0, 8)]);
    assert_eq!(e, MenuEffect::Relist(Some(CursorRestore::OnAddress(0x1007))));
    ui.blocks_selected = Some(7);
    handle_menu_action(&mut app, &mut ui, MenuAction::ToggleCollapsedBlock, &no_analysis);
    assert_eq!(ui.status_message, "Selected item is not a block");
}

#[test]
fn save_and_export_outcomes_are_reported() {
    let mut ui = ui();
    report_save(&mut ui, Ok(()));
    assert_eq!(ui.status_message, "Project saved");
    report_save(&mut ui, Err("disk full".to_string()));
    assert_eq!(ui.status_message, "Error saving: disk full");
    report_export(&mut ui, Ok(()));
    assert_eq!(ui.status_message, "Project Exported");
    report_export(&mut ui, Err("denied".to_string()));
    assert_eq!(ui.status_message, "Error exporting: denied");
}
