use regenerator2000::blocks::BlockType;
use regenerator2000::document::{
    HexdumpViewMode, Label, LabelKind, LabelType, Platform, SystemConfig,
};
use regenerator2000::project::{
    file_kind, image_of_file, labels_for_save, name_precedes, same_ignoring_ascii_case, FileKind,
    InitialLoad, ProjectError, ProjectSaveContext, SystemAssets,
};
use regenerator2000::raw_data::RawDataError;
use regenerator2000::state::AppState;
use std::collections::{BTreeMap, BTreeSet};

fn label(name: &str, kind: LabelKind) -> Label {
    Label {
        name: name.to_string(),
        label_type: LabelType::AbsoluteAddress,
        kind,
    }
}

fn empty_context() -> ProjectSaveContext {
    ProjectSaveContext {
        cursor_address: None,
        hex_dump_cursor_address: None,
        sprites_cursor_address: None,
        right_pane_visible: None,
        charset_cursor_address: None,
        sprite_multicolor_mode: false,
        charset_multicolor_mode: false,
        hexdump_view_mode: HexdumpViewMode::default(),
        splitters: BTreeSet::new(),
        blocks_view_cursor: None,
    }
}

fn no_assets() -> SystemAssets {
    SystemAssets {
        comments: BTreeMap::new(),
        labels: Vec::new(),
        excludes: Vec::new(),
    }
}

#[test]
fn save_keeps_only_user_labels() {
    let mut app_state = AppState::new();
    app_state.project_path = Some("test_project.regen2000proj".to_string());
    app_state.labels.insert(
        0x1000,
        vec![Label {
            name: "UserLabel".to_string(),
            label_type: LabelType::AbsoluteAddress,
            kind: LabelKind::User,
        }],
    );
    app_state.labels.insert(
        0x1005,
        vec![Label {
            name: "AutoLabel".to_string(),
            label_type: LabelType::Branch,
            kind: LabelKind::Auto,
        }],
    );
    let (path, project) = app_state.prepare_save(empty_context()).expect("Save failed");
    assert_eq!(path, "test_project.regen2000proj");
    assert!(
        !project.labels.contains_key(&0x1005),
        "Autogenerated label should NOT be saved"
    );
    let user_label = project
        .labels
        .get(&0x1000)
        .expect("User label should be saved");
    assert_eq!(user_label.first().unwrap().name, "UserLabel");
    assert_eq!(user_label.first().unwrap().kind, LabelKind::User);
    assert_eq!(
        user_label.first().unwrap().label_type,
        LabelType::AbsoluteAddress
    );
}

#[test]
fn save_without_project_path_is_refused() {
    let app_state = AppState::new();
    assert!(matches!(
        app_state.prepare_save(empty_context()),
        Err(ProjectError::NoProjectPath)
    ));
    assert_eq!(ProjectError::NoProjectPath.message(), "No project path set");
}

#[test]
fn saved_user_labels_are_ordered_by_name() {
    let mut labels = BTreeMap::new();
    labels.insert(
        0x2000,
        vec![
            label("zeta", LabelKind::User),
            label("sys", LabelKind::System),
            label("Alpha", LabelKind::User),
            label("alpha", LabelKind::User),
        ],
    );
    labels.insert(0x3000, vec![label("auto", LabelKind::Auto)]);
    let saved = labels_for_save(&labels);
    assert_eq!(saved.len(), 1);
    let names: Vec<&str> = saved[&0x2000].iter().map(|l| l.name.as_str()).collect();
    assert_eq!(names, vec!["Alpha", "alpha", "zeta"]);
}

#[test]
fn saved_labels_with_equal_names_keep_their_order() {
    let mut first = label("same", LabelKind::User);
    first.label_type = LabelType::Jump;
    let mut second = label("same", LabelKind::User);
    second.label_type = LabelType::Pointer;
    let mut labels = BTreeMap::new();
    labels.insert(0x1000, vec![first, label("early", LabelKind::User), second]);
    let saved = labels_for_save(&labels);
    let kept: Vec<(&str, LabelType)> = saved[&0x1000]
        .iter()
        .map(|l| (l.name.as_str(), l.label_type))
        .collect();
    assert_eq!(
        kept,
        vec![("early", LabelType::AbsoluteAddress), ("same", LabelType::Jump), ("same", LabelType::Pointer)]
    );
}

#[test]
fn names_compare_like_strings() {
    let pairs = [("a", "b"), ("ab", "b"), ("a", "ab"), ("", "a"), ("Z", "a"), ("é", "z")];
    for (x, y) in pairs {
        let (x, y) = (x.to_string(), y.to_string());
        assert_eq!(name_precedes(&x, &y), x < y, "{} < {}", x, y);
        assert_eq!(name_precedes(&y, &x), y < x, "{} < {}", y, x);
    }
    let same = "same".to_string();
    assert!(!name_precedes(&same, &same));
}

#[test]
fn saving_then_loading_gives_the_document_back() {
    let mut app_state = AppState::new();
    app_state.project_path = Some("p.regen2000proj".to_string());
    app_state.origin = 0xc000;
    app_state.raw_data = vec![0xA9, 0x00, 0x60, 0x41, 0x42];
    app_state.block_types = vec![
        BlockType::Code,
        BlockType::Code,
        BlockType::Code,
        BlockType::Text,
        BlockType::Text,
    ];
    app_state.collapsed_blocks.push((3, 4));
    app_state.labels.insert(0xc000, vec![label("entry", LabelKind::User)]);
    app_state
        .user_side_comments
        .insert(0xc002, "back to BASIC".to_string());
    app_state.settings.platform = Platform::CommodoreVIC20;
    let mut ctx = empty_context();
    ctx.cursor_address = Some(0xc002);
    ctx.splitters.insert(0xc003);
    let (_, project) = app_state.prepare_save(ctx).unwrap();

    let mut loaded = AppState::new();
    let data = loaded
        .load_project_state("p.regen2000proj".to_string(), project, no_assets())
        .unwrap();
    assert_eq!(data.cursor_address, Some(0xc002));
    assert_eq!(loaded.origin, 0xc000);
    assert_eq!(loaded.raw_data, app_state.raw_data);
    assert_eq!(loaded.block_types, app_state.block_types);
    assert_eq!(loaded.collapsed_blocks, vec![(3, 4)]);
    assert_eq!(loaded.labels, app_state.labels);
    assert_eq!(loaded.user_side_comments, app_state.user_side_comments);
    assert_eq!(loaded.settings.platform, Platform::CommodoreVIC20);
    assert!(loaded.splitters.contains(&0xc003));
    assert_eq!(loaded.project_path, Some("p.regen2000proj".to_string()));
    assert!(!loaded.is_dirty());
}

#[test]
fn loading_a_project_with_a_broken_image_fails() {
    let mut app_state = AppState::new();
    app_state.project_path = Some("p".to_string());
    let (_, mut project) = app_state.prepare_save(empty_context()).unwrap();
    project.raw_data = "%%%".to_string();
    let mut loaded = AppState::new();
    assert!(matches!(
        loaded.load_project_state("p".to_string(), project, no_assets()),
        Err(ProjectError::RawData(RawDataError::Base64))
    ));
}

#[test]
fn loading_blocks_without_image_bytes_is_refused() {
    let mut app_state = AppState::new();
    app_state.project_path = Some("p".to_string());
    app_state.raw_data = vec![1];
    app_state.block_types = vec![BlockType::Code];
    let (_, with_blocks) = app_state.prepare_save(empty_context()).unwrap();
    let mut empty = AppState::new();
    empty.project_path = Some("p".to_string());
    let (_, mut project) = empty.prepare_save(empty_context()).unwrap();
    project.blocks = with_blocks.blocks;
    let mut loaded = AppState::new();
    assert!(matches!(
        loaded.load_project_state("p".to_string(), project, no_assets()),
        Err(ProjectError::BlocksWithoutData)
    ));
}

#[test]
fn marking_saved_records_the_undo_position() {
    let mut app_state = AppState::new();
    app_state.project_path = Some("x.regen2000proj".to_string());
    app_state.last_saved_pointer = 7;
    app_state.mark_saved(true);
    assert_eq!(app_state.last_saved_pointer, 0);
    assert_eq!(
        app_state.system_config.last_project_path,
        Some("x.regen2000proj".to_string())
    );
}

#[test]
fn loading_a_file_clears_user_state() {
    let mut app_state = AppState::new();
    app_state.labels.insert(
        0x1234,
        vec![Label {
            name: "DeleteMe".to_string(),
            label_type: LabelType::UserDefined,
            kind: LabelKind::User,
        }],
    );
    app_state.project_path = Some("fake_project.regen2000proj".to_string());
    app_state.begin_load("dummy_test.bin".to_string());
    let (origin, image) = image_of_file(FileKind::Binary, vec![0xEA, 0xEA, 0xEA]).unwrap();
    let assets = SystemAssets {
        comments: BTreeMap::new(),
        labels: vec![(0xffd2, label("CHROUT", LabelKind::System))],
        excludes: vec![0x0001],
    };
    let data = app_state.load_image(origin, image, None, assets);
    for labels in app_state.labels.values() {
        for label in labels {
            assert_eq!(label.kind, LabelKind::System);
        }
    }
    assert!(!app_state.labels.contains_key(&0x1234));
    assert!(app_state.project_path.is_none());
    assert_eq!(app_state.labels[&0xffd2][0].name, "CHROUT");
    assert!(app_state.excluded_addresses.contains(&0x0001));
    assert_eq!(app_state.block_types, vec![BlockType::Code; 3]);
    assert_eq!(data.cursor_address, None);
}

#[test]
fn system_assets_replace_the_old_system_labels() {
    let mut app_state = AppState::new();
    app_state.labels.insert(
        0x10,
        vec![label("old_sys", LabelKind::System), label("mine", LabelKind::User)],
    );
    app_state.labels.insert(0x20, vec![label("only_sys", LabelKind::System)]);
    let assets = SystemAssets {
        comments: BTreeMap::new(),
        labels: vec![(0x10, label("new_sys", LabelKind::System))],
        excludes: Vec::new(),
    };
    app_state.load_system_assets(assets);
    let names: Vec<&str> = app_state.labels[&0x10].iter().map(|l| l.name.as_str()).collect();
    assert_eq!(names, vec!["mine", "new_sys"]);
    assert!(!app_state.labels.contains_key(&0x20));
}

#[test]
fn prg_files_start_with_their_load_address() {
    assert_eq!(
        image_of_file(FileKind::Prg, vec![0x01, 0x08, 0xAA, 0xBB]),
        Some((0x0801, vec![0xAA, 0xBB]))
    );
    assert_eq!(image_of_file(FileKind::Prg, vec![0x01]), Some((0, vec![0x01])));
    assert_eq!(image_of_file(FileKind::Crt, vec![1, 2, 3]), None);
}

#[test]
fn file_kinds_come_from_extensions_ignoring_case() {
    assert_eq!(file_kind(Some("PRG")), FileKind::Prg);
    assert_eq!(file_kind(Some("Regen2000Proj")), FileKind::Project);
    assert_eq!(file_kind(Some("t64")), FileKind::T64);
    assert_eq!(file_kind(Some("VSF")), FileKind::Vsf);
    assert_eq!(file_kind(Some("crt")), FileKind::Crt);
    assert_eq!(file_kind(Some("bin")), FileKind::Binary);
    assert_eq!(file_kind(Some("prgx")), FileKind::Binary);
    assert_eq!(file_kind(None), FileKind::Binary);
    assert!(same_ignoring_ascii_case("AbC", "aBc"));
    assert!(!same_ignoring_ascii_case("ab", "abc"));
}

#[test]
fn start_up_loads_the_argument_or_the_last_project() {
    let mut app_state = AppState::with_config(SystemConfig::default());
    let args = vec!["regen".to_string(), "game.prg".to_string()];
    assert_eq!(
        app_state.resolve_initial_load(&args, false),
        InitialLoad::FromArgs("game.prg".to_string())
    );
    let no_args = vec!["regen".to_string()];
    assert_eq!(app_state.resolve_initial_load(&no_args, true), InitialLoad::Nothing);
    app_state.system_config.last_project_path = Some("last.regen2000proj".to_string());
    assert_eq!(
        app_state.resolve_initial_load(&no_args, true),
        InitialLoad::LastProject("last.regen2000proj".to_string())
    );
    assert_eq!(app_state.resolve_initial_load(&no_args, false), InitialLoad::Nothing);
    app_state.system_config.open_last_project = false;
    assert_eq!(app_state.resolve_initial_load(&no_args, true), InitialLoad::Nothing);
}
