use regenerator2000::menu::{MenuAction, MenuCategory, MenuItem, MenuState};
use regenerator2000::popup::{bar_label, popup_area, popup_fits_now, CellRect, popup_layout, popup_row, popup_separator};

fn menu(categories: Vec<MenuCategory>, selected: usize) -> MenuState {
    MenuState {
        active: true,
        categories,
        selected_category: selected,
        selected_item: None,
    }
}

fn category(name: &str, items: Vec<MenuItem>) -> MenuCategory {
    MenuCategory {
        name: name.to_string(),
        items,
    }
}

#[test]
fn popup_starts_below_its_name() {
    let m = menu(
        vec![
            category("File", vec![MenuItem::new("Open", Some("Ctrl+O"), Some(MenuAction::Open))]),
            category("Edit", vec![MenuItem::new("Undo", Some("U"), Some(MenuAction::Undo))]),
            category(
                "View",
                vec![
                    MenuItem::new("Jump to address", Some("G"), Some(MenuAction::JumpToAddress)),
                    MenuItem::separator(),
                    MenuItem::new("Jump to line", None, Some(MenuAction::JumpToLine)),
                ],
            ),
        ],
        2,
    );
    assert!(popup_fits_now(&m));
    let layout = popup_layout(&m);
    // "File" and "Edit", each with a cell of padding on either side.
    assert_eq!(layout.x_offset, 12);
    assert_eq!(layout.name_width, 15);
    assert_eq!(layout.shortcut_width, 1);
    // 15 + 2 + 1 = 18 cells of content and a border of 2.
    assert_eq!(layout.width, 20);
    assert_eq!(layout.height, 5);
}

#[test]
fn popup_is_at_least_twenty_cells_wide() {
    let m = menu(vec![category("X", vec![MenuItem::new("A", None, None)])], 0);
    let layout = popup_layout(&m);
    assert_eq!(layout.x_offset, 0);
    assert_eq!(layout.width, 20);
    assert_eq!(layout.height, 3);

    let wide = menu(
        vec![category(
            "X",
            vec![MenuItem::new("A rather long entry name", Some("Shift+F"), None)],
        )],
        0,
    );
    assert_eq!(popup_layout(&wide).width, 24 + 2 + 7 + 2);
}

#[test]
fn popup_needs_a_selected_menu() {
    let m = menu(vec![category("File", vec![])], 1);
    assert!(!popup_fits_now(&m));
}

#[test]
fn popup_rows_align_names_and_shortcuts() {
    let item = MenuItem::new("Open", Some("O"), None);
    assert_eq!(popup_row(&item, 6, 3), "Open      O");
    let bare = MenuItem::new("Jump", None, None);
    assert_eq!(popup_row(&bare, 4, 2), "Jump    ");
    let long = MenuItem::new("Exit", Some("Ctrl+Q"), None);
    assert_eq!(popup_row(&long, 2, 3), "Exit  Ctrl+Q");
}

#[test]
fn popup_separator_spans_the_inside() {
    assert_eq!(popup_separator(6), "────");
    assert_eq!(popup_separator(1), "");
}

#[test]
fn menu_bar_names_are_padded() {
    assert_eq!(bar_label(&"File".to_string()), " File ");
}

#[test]
fn popup_is_clipped_to_a_small_screen() {
    let m = MenuState::new();
    let layout = popup_layout(&m);
    let bar = CellRect { x: 0, y: 0, width: 20, height: 1 };
    let screen = CellRect { x: 0, y: 0, width: 20, height: 5 };
    let area = popup_area(bar, screen, layout);
    assert_eq!(area.x, 0);
    assert_eq!(area.y, 1);
    assert_eq!(area.width, 20);
    assert_eq!(area.height, 4);
}

#[test]
fn popup_past_the_screen_has_no_size() {
    let m = menu(vec![category("File", vec![MenuItem::new("Open", None, None)])], 0);
    let layout = popup_layout(&m);
    let bar = CellRect { x: 30, y: 0, width: 10, height: 1 };
    let screen = CellRect { x: 0, y: 0, width: 20, height: 5 };
    let area = popup_area(bar, screen, layout);
    assert_eq!(area.width, 0);
}

#[test]
fn previous_item_undoes_next_item() {
    let mut m = menu(
        vec![category(
            "File",
            vec![
                MenuItem::new("Open", None, Some(MenuAction::Open)),
                MenuItem::separator(),
                MenuItem::new("Undo", None, Some(MenuAction::Undo)),
            ],
        )],
        0,
    );
    m.categories[0].items[2].disabled = false;
    for start in [0usize, 2] {
        m.selected_item = Some(start);
        m.next_item();
        assert_ne!(m.selected_item, Some(1));
        m.previous_item();
        assert_eq!(m.selected_item, Some(start));
    }
}
