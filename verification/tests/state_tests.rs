use regenerator2000::blocks::{compress_block_types, expand_blocks, Block, BlockItem, BlockType};
use regenerator2000::commands::Command;
use regenerator2000::document::{
    default_addresses_per_line, default_bytes_per_line, default_max_arrow_columns,
    default_max_xref, default_text_char_limit, default_theme, default_true, DocumentSettings,
    Label, LabelKind, LabelType, SystemConfig,
};
use regenerator2000::listing::{AddressingMode, DisassemblyLine, Opcode};
use regenerator2000::raw_data::{
    decode_raw_data_from_base64, encode_raw_data_to_base64, RawDataError,
};
use regenerator2000::state::AppState;
use std::collections::BTreeMap;

fn line(address: u16, bytes: Vec<u8>, mnemonic: &str) -> DisassemblyLine {
    DisassemblyLine {
        address,
        bytes,
        mnemonic: mnemonic.to_string(),
        operand: String::new(),
        comment: String::new(),
        line_comment: None,
        label: None,
        opcode: None,
        show_bytes: true,
        target_address: None,
        comment_address: None,
        is_collapsed: false,
    }
}

type Analysis = (BTreeMap<u16, Vec<Label>>, BTreeMap<u16, Vec<u16>>);

/// An analysis that finds nothing new: the labels and cross references
/// stay as they are.
fn keep_analysis(s: &AppState) -> Analysis {
    (s.labels.clone(), s.cross_refs.clone())
}

fn auto_label(addr: u16) -> Label {
    Label {
        name: format!("a{:04x}", addr),
        label_type: LabelType::AbsoluteAddress,
        kind: LabelKind::Auto,
    }
}

/// A stand-in analysis: keeps user and system labels, labels the targets
/// of `jmp` instructions, and labels the addresses a Lo/Hi table at the
/// start of the image points to.
fn stub_analysis(s: &AppState) -> Analysis {
    let mut labels: BTreeMap<u16, Vec<Label>> = BTreeMap::new();
    for (addr, ls) in &s.labels {
        let kept: Vec<Label> = ls.iter().filter(|l| l.kind != LabelKind::Auto).cloned().collect();
        if !kept.is_empty() {
            labels.insert(*addr, kept);
        }
    }
    let mut xrefs: BTreeMap<u16, Vec<u16>> = BTreeMap::new();
    let data = &s.raw_data;
    let mut i = 0;
    while i < data.len() {
        let addr = s.origin.wrapping_add(i as u16);
        if s.block_types[i] == BlockType::Code && data[i] == 0x4C && i + 2 < data.len() {
            let target = data[i + 1] as u16 | (data[i + 2] as u16) << 8;
            labels.entry(target).or_insert_with(|| vec![auto_label(target)]);
            xrefs.entry(target).or_default().push(addr);
            i += 3;
        } else {
            i += 1;
        }
    }
    let lohi = s.block_types.iter().take_while(|t| **t == BlockType::LoHi).count();
    for k in 0..lohi / 2 {
        let target = data[k] as u16 | (data[k + lohi / 2] as u16) << 8;
        labels.entry(target).or_insert_with(|| vec![auto_label(target)]);
    }
    (labels, xrefs)
}

fn no_definitions(_name: &String, _addr: u16, _zp: bool) -> String {
    String::new()
}

#[test]
fn test_compress_block_types() {
    let types = vec![
        BlockType::Code,
        BlockType::Code,
        BlockType::DataByte,
        BlockType::DataByte,
        BlockType::Code,
    ];
    let empty_collapsed: Vec<(usize, usize)> = Vec::new();
    let ranges = compress_block_types(&types, &empty_collapsed);
    assert_eq!(ranges.len(), 3);
    assert_eq!(ranges[0].start, 0);
    assert_eq!(ranges[0].end, 1);
    assert_eq!(ranges[0].type_, BlockType::Code);
    assert!(!ranges[0].collapsed);

    assert_eq!(ranges[1].start, 2);
    assert_eq!(ranges[1].end, 3);
    assert_eq!(ranges[1].type_, BlockType::DataByte);

    assert_eq!(ranges[2].start, 4);
    assert_eq!(ranges[2].end, 4);
    assert_eq!(ranges[2].type_, BlockType::Code);
}

#[test]
fn test_expand_blocks() {
    let ranges = vec![
        Block {
            start: 0,
            end: 1,
            type_: BlockType::Code,
            collapsed: false,
        },
        Block {
            start: 2,
            end: 3,
            type_: BlockType::DataByte,
            collapsed: true,
        },
        Block {
            start: 4,
            end: 4,
            type_: BlockType::Code,
            collapsed: false,
        },
    ];
    let (types, collapsed) = expand_blocks(&ranges, 5);
    assert_eq!(types.len(), 5);
    assert_eq!(types[0], BlockType::Code);
    assert_eq!(types[1], BlockType::Code);
    assert_eq!(types[2], BlockType::DataByte);
    assert_eq!(types[3], BlockType::DataByte);
    assert_eq!(types[4], BlockType::Code);

    assert_eq!(collapsed.len(), 1);
    assert_eq!(collapsed[0], (2, 3));
}

#[test]
fn test_encode_decode_raw_data() {
    let data: Vec<u8> = (0..100).collect();
    let encoded = encode_raw_data_to_base64(&data).unwrap();
    // Base64 string should not contain spaces
    assert!(!encoded.contains(' '));

    let decoded = decode_raw_data_from_base64(&encoded).unwrap();
    assert_eq!(data, decoded);
}

#[test]
fn test_get_line_index_skips_headers() {
    let mut app_state = AppState::new();
    app_state.origin = 0x1000;

    app_state.disassembly.push(line(0, vec![], "; EXTERNAL"));
    app_state.disassembly.push(line(0x1000, vec![0xEA], "NOP"));

    let mut app_state_zero = AppState::new();
    app_state_zero.origin = 0;

    // External label for $0000
    app_state_zero.disassembly.push(line(0, vec![], "ExtLabel"));
    // Actual code at $0000
    app_state_zero.disassembly.push(line(0, vec![0xEA], "NOP"));

    let idx = app_state_zero.get_line_index_for_address(0);
    assert_eq!(
        idx,
        Some(1),
        "Should skip empty line at address 0 and find code line"
    );
}

#[test]
fn test_default_settings() {
    let settings = DocumentSettings::default();
    assert_eq!(settings.max_arrow_columns, 6);

    let app_state = AppState::new();
    assert_eq!(app_state.settings.max_arrow_columns, 6);
}

#[test]
fn test_missing_setting_values_match_new_document() {
    let settings = DocumentSettings::default();
    assert!(default_true());
    assert_eq!(default_max_xref(), settings.max_xref_count);
    assert_eq!(default_max_arrow_columns(), settings.max_arrow_columns);
    assert_eq!(default_text_char_limit(), 40);
    assert_eq!(default_addresses_per_line(), 5);
    assert_eq!(default_bytes_per_line(), 8);
    let config = SystemConfig::default();
    assert_eq!(default_theme(), "Solarized Dark");
    assert_eq!(config.theme, default_theme());
    assert!(config.open_last_project && config.sync_blocks_view && config.sync_hex_dump);
}

#[test]
fn test_get_line_index_with_collapsed_block() {
    let mut state = AppState::new();
    state.origin = 0x1000;
    state.raw_data = vec![0xEA, 0xEA, 0xEA];
    state.block_types = vec![BlockType::Code; 3];

    // Collapse middle byte (offset 1, length 1)
    state.collapsed_blocks.push((1, 1));
    // The listing the disassembler produces for this document:
    // Line 0: NOP ($1000)
    // Line 1: Collapsed ($1001)
    // Line 2: NOP ($1002)
    let mut collapsed = line(0x1001, vec![0xEA], "; collapsed");
    collapsed.is_collapsed = true;
    let lines = vec![
        line(0x1000, vec![0xEA], "nop"),
        collapsed,
        line(0x1002, vec![0xEA], "nop"),
    ];
    state.disassemble(lines, ";", no_definitions);

    // Test finding start of collapsed block
    let idx = state.get_line_index_containing_address(0x1001);
    assert_eq!(
        idx,
        Some(1),
        "Should find index of collapsed block summary line"
    );

    // Test finding normal lines
    assert_eq!(state.get_line_index_containing_address(0x1000), Some(0));
    assert_eq!(state.get_line_index_containing_address(0x1002), Some(2));
}

#[test]
fn encoded_image_is_a_base64_gzip_stream() {
    let encoded = encode_raw_data_to_base64(&[1, 2, 3]).unwrap();
    // gzip streams start with 1f 8b 08, which base64 writes as "H4sI".
    assert!(encoded.starts_with("H4sI"));
    assert!(encoded.len() % 4 == 0);
    assert!(encoded
        .chars()
        .all(|c| c.is_ascii_alphanumeric() || c == '+' || c == '/' || c == '='));
}

#[test]
fn empty_image_round_trips() {
    let encoded = encode_raw_data_to_base64(&[]).unwrap();
    assert_eq!(decode_raw_data_from_base64(&encoded).unwrap(), Vec::<u8>::new());
}

#[test]
fn decode_rejects_text_that_is_not_base64() {
    assert_eq!(
        decode_raw_data_from_base64("not base64!"),
        Err(RawDataError::Base64)
    );
    // Non-canonical padding is refused as well.
    assert_eq!(decode_raw_data_from_base64("QQ"), Err(RawDataError::Base64));
}

#[test]
fn decode_rejects_base64_that_is_not_gzip() {
    // "AAECAw==" is the base64 text of the bytes 0, 1, 2, 3.
    assert_eq!(
        decode_raw_data_from_base64("AAECAw=="),
        Err(RawDataError::Decompress)
    );
}

#[test]
fn compress_then_expand_gives_the_types_back() {
    let types = vec![
        BlockType::Code,
        BlockType::Text,
        BlockType::Text,
        BlockType::LoHi,
        BlockType::LoHi,
        BlockType::Code,
    ];
    let collapsed = vec![(1, 2)];
    let runs = compress_block_types(&types, &collapsed);
    assert_eq!(runs.len(), 4);
    let (back, back_collapsed) = expand_blocks(&runs, types.len());
    assert_eq!(back, types);
    assert_eq!(back_collapsed, collapsed);
}

#[test]
fn collapsed_flag_splits_runs_of_one_type() {
    let types = vec![BlockType::Code; 4];
    let runs = compress_block_types(&types, &[(1, 2)]);
    assert_eq!(runs.len(), 3);
    assert_eq!((runs[1].start, runs[1].end, runs[1].collapsed), (1, 2, true));
}

#[test]
fn expand_clips_runs_past_the_image() {
    let runs = vec![Block {
        start: 1,
        end: 10,
        type_: BlockType::Text,
        collapsed: true,
    }];
    let (types, collapsed) = expand_blocks(&runs, 3);
    assert_eq!(types, vec![BlockType::Code, BlockType::Text, BlockType::Text]);
    assert_eq!(collapsed, vec![(1, 2)]);
}

#[test]
fn line_index_for_address_falls_back_to_the_next_line() {
    let mut state = AppState::new();
    state.disassembly.push(line(0x1000, vec![0xEA], "nop"));
    state.disassembly.push(line(0x1003, vec![0xEA], "nop"));
    assert_eq!(state.get_line_index_for_address(0x1001), Some(1));
    assert_eq!(state.get_line_index_for_address(0x2000), None);
}

#[test]
fn block_range_is_the_run_around_the_address() {
    let mut state = AppState::new();
    state.origin = 0x2000;
    state.block_types = vec![
        BlockType::Code,
        BlockType::Text,
        BlockType::Text,
        BlockType::Text,
        BlockType::Code,
    ];
    assert_eq!(state.get_block_range(0x2002), Some((0x2001, 0x2003)));
    assert_eq!(state.get_block_range(0x1fff), None);
    assert_eq!(state.get_block_range(0x2005), None);
}

#[test]
fn external_addresses_lie_outside_the_image() {
    let mut state = AppState::new();
    state.origin = 0xfffe;
    state.raw_data = vec![0, 0, 0, 0];
    assert!(!state.is_external(0xfffe));
    assert!(!state.is_external(0x0001));
    assert!(state.is_external(0x0002));
    assert!(state.is_external(0x8000));
}

fn edit_doc() -> AppState {
    let mut state = AppState::new();
    state.origin = 0x1000;
    state.raw_data = vec![0xEA, 0xEA, 0xEA, 0xEA];
    state.block_types = vec![BlockType::Code; 4];
    state.disassembly = vec![
        line(0x1000, vec![0xEA], "nop"),
        line(0x1001, vec![0xEA], "nop"),
        line(0x1002, vec![0xEA], "nop"),
        line(0x1003, vec![0xEA], "nop"),
    ];
    state
}

#[test]
fn undo_restores_a_block_type_edit_and_the_saved_state() {
    let mut state = edit_doc();
    assert!(!state.is_dirty());
    state.set_block_type_region(BlockType::DataByte, Some(1), 2, &keep_analysis);
    assert_eq!(
        state.block_types,
        vec![
            BlockType::Code,
            BlockType::DataByte,
            BlockType::DataByte,
            BlockType::Code
        ]
    );
    assert!(state.is_dirty());
    let msg = state.undo_last_command();
    assert!(msg.starts_with("Undo: "));
    assert_eq!(state.block_types, vec![BlockType::Code; 4]);
    assert!(!state.is_dirty());
    assert_eq!(state.undo_last_command(), "Nothing to undo");
}

#[test]
fn redo_reapplies_an_undone_edit() {
    let mut state = edit_doc();
    state.set_block_type_region(BlockType::Text, None, 3, &keep_analysis);
    state.undo_last_command();
    let msg = state.redo_last_command();
    assert!(msg.starts_with("Redo: "));
    assert_eq!(state.block_types[3], BlockType::Text);
    assert_eq!(state.redo_last_command(), "Nothing to redo");
}

#[test]
fn set_block_type_past_the_listing_does_nothing() {
    let mut state = edit_doc();
    state.set_block_type_region(BlockType::Text, None, 9, &keep_analysis);
    assert_eq!(state.block_types, vec![BlockType::Code; 4]);
    assert_eq!(state.undo_stack.get_pointer(), 0);
}

#[test]
fn a_new_edit_after_undoing_past_the_save_makes_the_save_unreachable() {
    let mut state = edit_doc();
    state.set_block_type_region(BlockType::Text, None, 0, &keep_analysis);
    state.last_saved_pointer = state.undo_stack.get_pointer();
    state.undo_last_command();
    state.set_block_type_region(BlockType::DataWord, None, 1, &keep_analysis);
    assert_eq!(state.last_saved_pointer, usize::MAX);
    assert!(state.is_dirty());
}

#[test]
fn toggling_a_splitter_twice_removes_it() {
    let mut state = edit_doc();
    state.toggle_splitter(0x1002);
    assert!(state.splitters.contains(&0x1002));
    state.toggle_splitter(0x1002);
    assert!(state.splitters.is_empty());
}

#[test]
fn commands_apply_and_revert() {
    let mut state = edit_doc();
    let mut found = BTreeMap::new();
    found.insert(0x1000u16, vec![auto_label(0x1000)]);
    let command = Command::SetBlockType {
        start: 0,
        end: 2,
        new_type: BlockType::Text,
        old_types: vec![BlockType::Code, BlockType::Code],
        labels: found,
        cross_refs: BTreeMap::new(),
        old_labels: BTreeMap::new(),
        old_cross_refs: BTreeMap::new(),
    };
    command.apply(&mut state);
    assert_eq!(state.block_types[0], BlockType::Text);
    assert_eq!(state.block_types[1], BlockType::Text);
    assert_eq!(state.labels[&0x1000][0].name, "a1000");
    command.undo(&mut state);
    assert_eq!(state.block_types, vec![BlockType::Code; 4]);
    assert!(state.labels.is_empty());
    assert_eq!(command.name(), "Set Block Type");
}

#[test]
fn analysis_is_an_undoable_edit() {
    let mut state = edit_doc();
    let user = Label {
        name: "start".to_string(),
        label_type: LabelType::UserDefined,
        kind: LabelKind::User,
    };
    state.labels.insert(0x1000, vec![user.clone()]);
    let auto = |name: &str| Label {
        name: name.to_string(),
        label_type: LabelType::Branch,
        kind: LabelKind::Auto,
    };
    let mut labels = std::collections::BTreeMap::new();
    labels.insert(0x1000, vec![user.clone(), auto("j1000")]);
    labels.insert(0x1002, vec![auto("b1002")]);
    let mut refs = std::collections::BTreeMap::new();
    refs.insert(0x1002u16, vec![0x1000u16]);
    let msg = state.perform_analysis(labels, refs);
    assert_eq!(msg, "Analysis Complete");
    assert_eq!(state.labels.len(), 2);
    assert_eq!(state.labels[&0x1000].len(), 2);
    assert_eq!(state.cross_refs.len(), 1);
    state.undo_last_command();
    // Undo gives every address the analysis labelled its labels back.
    assert_eq!(state.labels.get(&0x1000), Some(&vec![user]));
    assert!(!state.labels.contains_key(&0x1002));
    assert!(state.cross_refs.is_empty());
}

#[test]
fn blocks_overview_splits_runs_at_splitters() {
    let mut state = edit_doc();
    state.splitters.insert(0x1002);
    let items = state.get_blocks_view_items();
    assert_eq!(items.len(), 3);
    assert_eq!(state.get_block_index_for_address(0x1003), Some(2));
    assert_eq!(state.get_block_index_for_address(0x1002), Some(1));
    assert_eq!(state.get_block_index_for_address(0x1000), Some(0));
}

#[test]
fn block_type_names_are_the_displayed_ones() {
    assert_eq!(BlockType::DataByte.display_string(), "Byte");
    assert_eq!(BlockType::LoHi.display_string(), "Lo/Hi");
    assert_eq!(BlockType::ExternalFile.display_string(), "External File");
}

#[test]
fn external_definitions_list_labels_outside_the_image() {
    let mut state = edit_doc();
    state.labels.insert(
        0xd020,
        vec![Label {
            name: "border".to_string(),
            label_type: LabelType::AbsoluteAddress,
            kind: LabelKind::System,
        }],
    );
    let defs = state.get_external_label_definitions(";", |name: &String, addr: u16, _zp: bool| {
        format!("{} = ${:04x}", name, addr)
    });
    assert_eq!(defs.len(), 3);
    assert_eq!(defs[0].mnemonic, "; ABSOLUTE ADDRESSES");
    assert_eq!(defs[1].mnemonic, "border = $d020");
    assert_eq!(defs[1].comment_address, Some(0xd020));
    assert_eq!(defs[2].mnemonic, "");
}

#[test]
fn immediate_lines_are_recognised() {
    let mut l = line(0x1000, vec![0xA9, 0x01], "lda");
    l.opcode = Some(Opcode {
        mode: AddressingMode::Immediate,
    });
    assert_eq!(l.opcode.unwrap().mode, AddressingMode::Immediate);
}

#[test]
fn redo_after_undo_gives_the_edited_document_back() {
    let mut state = edit_doc();
    state.set_block_type_region(BlockType::DataByte, Some(0), 1, &keep_analysis);
    let types = state.block_types.clone();
    let pointer = state.undo_stack.get_pointer();
    let dirty = state.is_dirty();
    assert_ne!(state.undo_last_command(), "Nothing to undo");
    assert_ne!(state.redo_last_command(), "Nothing to redo");
    assert_eq!(state.block_types, types);
    assert_eq!(state.undo_stack.get_pointer(), pointer);
    assert_eq!(state.is_dirty(), dirty);
}

#[test]
fn an_unreachable_save_stays_dirty_through_undo_and_redo() {
    let mut state = edit_doc();
    state.set_block_type_region(BlockType::Text, None, 0, &keep_analysis);
    state.last_saved_pointer = state.undo_stack.get_pointer();
    state.undo_last_command();
    state.set_block_type_region(BlockType::DataWord, None, 1, &keep_analysis);
    assert_eq!(state.last_saved_pointer, usize::MAX);
    for _ in 0..3 {
        state.undo_last_command();
        assert!(state.is_dirty());
    }
    for _ in 0..3 {
        state.redo_last_command();
        assert!(state.is_dirty());
    }
}

#[test]
fn rebuilding_the_listing_keeps_the_rest_of_the_document() {
    let mut state = edit_doc();
    state.export_path = Some("out.asm".to_string());
    state.user_line_comments.insert(0x1001, "note".to_string());
    let lines = vec![line(0x1000, vec![0xEA, 0xEA, 0xEA, 0xEA], "nop")];
    state.disassemble(lines, ";", no_definitions);
    assert_eq!(state.disassembly.len(), 1);
    assert_eq!(state.export_path.as_deref(), Some("out.asm"));
    assert_eq!(state.user_line_comments.get(&0x1001).map(|s| s.as_str()), Some("note"));
}

#[test]
fn blocks_overview_tiles_the_image() {
    let mut state = edit_doc();
    state.block_types = vec![BlockType::Code, BlockType::Code, BlockType::DataByte, BlockType::DataByte];
    state.splitters.insert(0x1001);
    state.splitters.insert(0x1002);
    let items = state.get_blocks_view_items();
    let mut next: u16 = 0;
    for (i, item) in items.iter().enumerate() {
        match item {
            BlockItem::Block { start, end, .. } => {
                assert_eq!(*start, next);
                assert!(start <= end);
                next = end + 1;
            }
            BlockItem::Splitter(a) => match items[i + 1] {
                BlockItem::Block { start, .. } => assert_eq!(start, a - 0x1000),
                BlockItem::Splitter(_) => panic!("a splitter must lead a block"),
            },
        }
    }
    assert_eq!(next, 4);
}

#[test]
fn test_set_block_type_lohi_creates_labels() {
    let mut app_state = AppState::new();
    app_state.origin = 0x1000;
    app_state.raw_data = vec![0x00, 0x01, 0x00, 0x20];
    app_state.block_types = vec![BlockType::DataByte; 4];
    // The listing the disassembler gives for four data bytes: one line.
    app_state.disassembly = vec![line(0x1000, vec![0x00, 0x01, 0x00, 0x20], ".byte")];
    app_state.set_block_type_region(BlockType::LoHi, Some(0), 0, &stub_analysis);
    assert_eq!(app_state.block_types, vec![BlockType::LoHi; 4]);
    let l1 = app_state.labels.get(&0x0000);
    assert!(l1.is_some(), "Should generate label for internal address");
    assert_eq!(l1.unwrap()[0].name, "a0000");
    let l2 = app_state.labels.get(&0x2001);
    assert!(l2.is_some(), "Should generate label for external address");
    assert_eq!(l2.unwrap()[0].name, "a2001");
    // One undo takes the type and the labels back.
    app_state.undo_last_command();
    assert_eq!(app_state.block_types, vec![BlockType::DataByte; 4]);
    assert!(app_state.labels.is_empty());
    app_state.redo_last_command();
    assert_eq!(app_state.labels[&0x2001][0].name, "a2001");
}

#[test]
fn test_perform_analysis_preserves_user_labels() {
    let mut app_state = AppState::new();
    app_state.origin = 0x1000;
    app_state.raw_data = vec![0x4C, 0x05, 0x10, 0xEA, 0xEA, 0xEA];
    app_state.block_types = vec![BlockType::Code; 6];
    let user_label = Label {
        name: "MyCustomLabel".to_string(),
        kind: LabelKind::User,
        label_type: LabelType::UserDefined,
    };
    app_state.labels.insert(0x1005, vec![user_label]);
    let (labels, cross_refs) = stub_analysis(&app_state);
    app_state.perform_analysis(labels, cross_refs);
    let labels = app_state.labels.get(&0x1005).expect("Should have labels");
    assert_eq!(labels.len(), 1);
    assert_eq!(labels[0].kind, LabelKind::User);
    assert_eq!(labels[0].name, "MyCustomLabel");
}

#[test]
fn test_perform_analysis_preserves_system_labels() {
    let mut app_state = AppState::new();
    app_state.origin = 0x1000;
    app_state.raw_data = vec![0xAD, 0x20, 0xD0];
    app_state.block_types = vec![BlockType::Code; 3];
    let sys_label = Label {
        name: "VIC_BORDER_COLOR".to_string(),
        kind: LabelKind::System,
        label_type: LabelType::AbsoluteAddress,
    };
    app_state.labels.insert(0xD020, vec![sys_label]);
    let (labels, cross_refs) = stub_analysis(&app_state);
    app_state.perform_analysis(labels, cross_refs);
    let labels = app_state.labels.get(&0xD020).expect("Should have labels");
    assert_eq!(labels[0].name, "VIC_BORDER_COLOR");
    assert_eq!(labels[0].kind, LabelKind::System);
}

#[test]
fn test_perform_analysis_regenerates_arrows() {
    let mut app_state = AppState::new();
    app_state.origin = 0x1000;
    app_state.raw_data = vec![0x4C, 0x05, 0x10, 0xEA, 0xEA, 0xEA];
    app_state.block_types = vec![BlockType::Code; 6];
    let (labels, cross_refs) = stub_analysis(&app_state);
    app_state.perform_analysis(labels, cross_refs);
    // The listing the disassembler gives for the analysed document.
    let mut jmp = line(0x1000, vec![0x4C, 0x05, 0x10], "jmp");
    jmp.opcode = Some(Opcode { mode: AddressingMode::Absolute });
    jmp.target_address = Some(0x1005);
    app_state.disassemble(vec![jmp], ";", no_definitions);
    let line = &app_state.disassembly[0];
    assert_eq!(line.mnemonic, "jmp");
    assert_eq!(line.target_address, Some(0x1005));
    assert_eq!(app_state.cross_refs.get(&0x1005), Some(&vec![0x1000]));
}
