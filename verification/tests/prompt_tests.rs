use regenerator2000::ui::{PromptKey, UiState};

fn prompt(typed: &str) -> UiState {
    let mut ui = UiState::new(String::new());
    ui.vim_search_active = true;
    ui.vim_search_input = typed.to_string();
    ui
}

#[test]
fn typing_into_the_search_prompt() {
    let mut ui = prompt("ld");
    assert!(!ui.search_prompt_key(PromptKey::Char('a')));
    assert_eq!(ui.vim_search_input, "lda");
    assert!(!ui.search_prompt_key(PromptKey::Backspace));
    assert!(!ui.search_prompt_key(PromptKey::Backspace));
    assert_eq!(ui.vim_search_input, "l");
    assert!(ui.vim_search_active);
}

#[test]
fn backspace_on_an_empty_prompt_changes_nothing() {
    let mut ui = prompt("");
    assert!(!ui.search_prompt_key(PromptKey::Backspace));
    assert_eq!(ui.vim_search_input, "");
    assert!(ui.vim_search_active);
}

#[test]
fn enter_stores_the_query_and_searches() {
    let mut ui = prompt("sta $d020");
    assert!(ui.search_prompt_key(PromptKey::Enter));
    assert_eq!(ui.last_search_query, "sta $d020");
    assert!(!ui.vim_search_active);
}

#[test]
fn escape_closes_the_prompt() {
    let mut ui = prompt("jmp");
    ui.last_search_query = "old".to_string();
    assert!(!ui.search_prompt_key(PromptKey::Escape));
    assert!(!ui.vim_search_active);
    assert_eq!(ui.status_message, "Ready");
    assert_eq!(ui.last_search_query, "old");
}

#[test]
fn other_keys_leave_the_prompt_alone() {
    let mut ui = prompt("x");
    assert!(!ui.search_prompt_key(PromptKey::Other));
    assert_eq!(ui.vim_search_input, "x");
    assert!(ui.vim_search_active);
}

#[test]
fn a_new_interface_shows_the_logo_and_no_prompt() {
    let ui = UiState::new("/tmp".to_string());
    assert!(!ui.dismiss_logo);
    assert!(!ui.vim_search_active);
    assert_eq!(ui.vim_search_input, "");
}
