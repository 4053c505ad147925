use typing_test::config::{Config, GameMode, LanguagePack, LayoutTheme, WordListDifficulty};
use typing_test::menu::{
    change_value, get_value_string, menu_item_label, menu_line, menu_step, note_save_outcome,
    MenuAction, MenuKey, MenuState, MENU_ITEM_COUNT,
};

fn pack(name: &str) -> LanguagePack {
    LanguagePack { name: name.to_string(), words: vec!["w".to_string()] }
}

fn menu() -> MenuState<u32> {
    MenuState::new(Config::default())
}

#[test]
fn menu_opens_on_first_item() {
    let m = menu();
    assert_eq!(m.selected_item, 0);
    assert_eq!(m.status_message, "");
}

#[test]
fn up_and_down_stay_within_the_list() {
    let mut m = menu();
    assert_eq!(menu_step(&mut m, MenuKey::Up), MenuAction::Stay);
    assert_eq!(m.selected_item, 0);
    for _ in 0..10 {
        menu_step(&mut m, MenuKey::Down);
    }
    assert_eq!(m.selected_item, MENU_ITEM_COUNT - 1);
    menu_step(&mut m, MenuKey::Up);
    assert_eq!(m.selected_item, 3);
}

#[test]
fn quit_and_enter_actions() {
    let mut m = menu();
    assert_eq!(menu_step(&mut m, MenuKey::Quit), MenuAction::Leave);
    assert_eq!(menu_step(&mut m, MenuKey::Enter), MenuAction::Save);
    assert_eq!(menu_step(&mut m, MenuKey::Other), MenuAction::Stay);
}

#[test]
fn game_mode_and_layout_flip() {
    let mut m = menu();
    change_value(&mut m, 1);
    assert_eq!(m.config.game_mode, GameMode::Time);
    change_value(&mut m, -1);
    assert_eq!(m.config.game_mode, GameMode::Words);
    m.selected_item = 3;
    change_value(&mut m, 1);
    assert_eq!(m.config.layout_theme, LayoutTheme::Boxes);
    change_value(&mut m, 1);
    assert_eq!(m.config.layout_theme, LayoutTheme::Default);
}

#[test]
fn test_length_moves_by_five_not_below_five() {
    let mut m = menu();
    m.selected_item = 1;
    change_value(&mut m, 1);
    assert_eq!(m.config.default_test_length, 25);
    for _ in 0..10 {
        change_value(&mut m, -1);
    }
    assert_eq!(m.config.default_test_length, 5);
    m.config.default_test_length = 7;
    change_value(&mut m, -1);
    assert_eq!(m.config.default_test_length, 5);
}

#[test]
fn time_limit_moves_by_five_not_below_ten() {
    let mut m = menu();
    m.selected_item = 2;
    change_value(&mut m, -1);
    assert_eq!(m.config.default_time_limit, 55);
    for _ in 0..20 {
        change_value(&mut m, -1);
    }
    assert_eq!(m.config.default_time_limit, 10);
    change_value(&mut m, 1);
    assert_eq!(m.config.default_time_limit, 15);
}

#[test]
fn difficulty_cycles_through_levels() {
    let mut m = menu();
    m.selected_item = 4;
    change_value(&mut m, 1);
    assert_eq!(m.config.word_list_difficulty, WordListDifficulty::Medium);
    change_value(&mut m, 1);
    assert_eq!(m.config.word_list_difficulty, WordListDifficulty::Hard);
    change_value(&mut m, 1);
    assert_eq!(m.config.word_list_difficulty, WordListDifficulty::Easy);
    change_value(&mut m, -1);
    assert_eq!(m.config.word_list_difficulty, WordListDifficulty::Hard);
    assert_eq!(get_value_string(&m.config, 4), "Hard");
}

#[test]
fn difficulty_change_keeps_language() {
    let mut m = menu();
    m.config.language_packs = vec![pack("english"), pack("german")];
    m.selected_item = 4;
    change_value(&mut m, 1);
    assert_eq!(m.config.selected_language, "english");
}

#[test]
fn other_items_change_nothing() {
    let mut m = menu();
    m.selected_item = 9;
    change_value(&mut m, 1);
    assert_eq!(m.config.default_test_length, 20);
    assert_eq!(m.config.game_mode, GameMode::Words);
}

#[test]
fn value_strings() {
    let c: Config<u32> = Config::default();
    assert_eq!(get_value_string(&c, 0), "Words");
    assert_eq!(get_value_string(&c, 1), "20 words");
    assert_eq!(get_value_string(&c, 2), "60 seconds");
    assert_eq!(get_value_string(&c, 3), "Default");
    assert_eq!(get_value_string(&c, 4), "Easy");
    assert_eq!(get_value_string(&c, 5), "");
}

#[test]
fn menu_lines_pad_labels() {
    let c: Config<u32> = Config::default();
    assert_eq!(menu_item_label(2), "Time Limit (Seconds)");
    assert_eq!(menu_item_label(4), "Word List Difficulty");
    assert_eq!(menu_line(&c, 4), "Word List Difficulty     : Easy");
    assert_eq!(menu_line(&c, 0), format!("{: <25}: {}", "Game Mode", "Words"));
    assert_eq!(menu_line(&c, 1), "Test Length (Words)      : 20 words");
}

#[test]
fn save_outcome_messages() {
    let mut m = menu();
    note_save_outcome(&mut m, Ok(()));
    assert_eq!(m.status_message, "Config saved successfully!");
    note_save_outcome(&mut m, Err("disk full".to_string()));
    assert_eq!(m.status_message, "Error saving config: disk full");
}

#[test]
fn length_and_time_steps_undo_each_other() {
    let mut m = menu();
    m.selected_item = 1;
    change_value(&mut m, 1);
    change_value(&mut m, -1);
    assert_eq!(m.config.default_test_length, 20);
    change_value(&mut m, -1);
    change_value(&mut m, 1);
    assert_eq!(m.config.default_test_length, 20);
    m.selected_item = 2;
    change_value(&mut m, -1);
    change_value(&mut m, 1);
    assert_eq!(m.config.default_time_limit, 60);
}

#[test]
fn difficulty_steps_undo_each_other() {
    let mut m = menu();
    m.selected_item = 4;
    m.config.word_list_difficulty = WordListDifficulty::Medium;
    change_value(&mut m, 1);
    change_value(&mut m, -1);
    assert_eq!(m.config.word_list_difficulty, WordListDifficulty::Medium);
}

#[test]
fn saves_only_at_enter_and_leaves_at_quit() {
    let mut m = menu();
    let keys = [MenuKey::Right, MenuKey::Enter, MenuKey::Down, MenuKey::Right, MenuKey::Quit];
    let actions: Vec<MenuAction> = keys.iter().map(|k| menu_step(&mut m, *k)).collect();
    assert_eq!(
        actions,
        vec![MenuAction::Stay, MenuAction::Save, MenuAction::Stay, MenuAction::Stay, MenuAction::Leave]
    );
}
