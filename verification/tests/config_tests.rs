use typing_test::config::{
    adopt_language_packs, default_language, difficulty_label, difficulty_words, find_language,
    record_result, resolve_config, result_key, ColorTheme, Config, GameMode, LanguagePack,
    LayoutTheme, WordListDifficulty,
};

fn pack(name: &str, words: &[&str]) -> LanguagePack {
    LanguagePack { name: name.to_string(), words: words.iter().map(|w| w.to_string()).collect() }
}

#[test]
fn color_theme_default_is_green_red_white() {
    let t = ColorTheme::default();
    assert_eq!(t.correct, (0, 255, 0));
    assert_eq!(t.incorrect, (255, 0, 0));
    assert_eq!(t.default, (255, 255, 255));
}

#[test]
fn config_default_settings() {
    let c: Config<u32> = Config::default();
    assert_eq!(c.default_test_length, 20);
    assert_eq!(c.default_time_limit, 60);
    assert_eq!(c.game_mode, GameMode::Words);
    assert!(c.restart_button);
    assert_eq!(c.layout_theme, LayoutTheme::Default);
    assert_eq!(c.word_list_difficulty, WordListDifficulty::Easy);
    assert!(c.results.is_empty());
    assert!(c.language_packs.is_empty());
    assert_eq!(c.selected_language, "english");
}

#[test]
fn default_language_is_english_without_packs() {
    assert_eq!(default_language(&Vec::new()), "english");
}

#[test]
fn default_language_is_first_pack() {
    let packs = vec![pack("german", &["hallo"]), pack("english", &["hello"])];
    assert_eq!(default_language(&packs), "german");
}

#[test]
fn find_language_gives_first_position() {
    let packs = vec![pack("a", &[]), pack("b", &[]), pack("b", &["x"])];
    assert_eq!(find_language(&packs, &"b".to_string()), Some(1));
    assert_eq!(find_language(&packs, &"c".to_string()), None);
}

#[test]
fn resolve_without_saved_config_uses_defaults_and_first_pack() {
    let packs = vec![pack("french", &["bonjour"])];
    let c: Config<u32> = resolve_config(None, packs);
    assert_eq!(c.default_test_length, 20);
    assert_eq!(c.selected_language, "french");
    assert_eq!(c.language_packs.len(), 1);
}

#[test]
fn resolve_without_packs_selects_english() {
    let c: Config<u32> = resolve_config(None, Vec::new());
    assert_eq!(c.selected_language, "english");
}

#[test]
fn resolve_keeps_known_language_and_settings() {
    let mut saved: Config<u32> = Config::default();
    saved.default_test_length = 35;
    saved.game_mode = GameMode::Time;
    saved.selected_language = "spanish".to_string();
    let packs = vec![pack("english", &["a"]), pack("spanish", &["hola"])];
    let c = resolve_config(Some(saved), packs);
    assert_eq!(c.default_test_length, 35);
    assert_eq!(c.game_mode, GameMode::Time);
    assert_eq!(c.selected_language, "spanish");
}

#[test]
fn resolve_replaces_unknown_language() {
    let mut saved: Config<u32> = Config::default();
    saved.selected_language = "klingon".to_string();
    let packs = vec![pack("english", &["a"])];
    let c = resolve_config(Some(saved), packs);
    assert_eq!(c.selected_language, "english");
}

#[test]
fn adopt_packs_falls_back_only_when_unknown() {
    let mut c: Config<u32> = Config::default();
    adopt_language_packs(&mut c, vec![pack("english", &[])], "other".to_string());
    assert_eq!(c.selected_language, "english");
    adopt_language_packs(&mut c, vec![pack("dutch", &[])], "dutch".to_string());
    assert_eq!(c.selected_language, "dutch");
}

#[test]
fn every_difficulty_has_words() {
    for d in [WordListDifficulty::Easy, WordListDifficulty::Medium, WordListDifficulty::Hard] {
        let ws = difficulty_words(d);
        assert_eq!(ws.len(), 25);
        assert!(ws.iter().all(|w| !w.is_empty()));
    }
    assert_eq!(difficulty_words(WordListDifficulty::Easy)[0], "the");
    assert_eq!(difficulty_words(WordListDifficulty::Hard)[24], "opportunity");
    let easy_max = difficulty_words(WordListDifficulty::Easy).iter().map(|w| w.len()).max().unwrap();
    let hard_min = difficulty_words(WordListDifficulty::Hard).iter().map(|w| w.len()).min().unwrap();
    assert!(easy_max < hard_min);
}

#[test]
fn difficulty_labels() {
    assert_eq!(difficulty_label(WordListDifficulty::Easy), "Easy");
    assert_eq!(difficulty_label(WordListDifficulty::Medium), "Medium");
    assert_eq!(difficulty_label(WordListDifficulty::Hard), "Hard");
}

#[test]
fn result_keys_name_mode_setting_and_language() {
    let mut c: Config<u32> = Config::default();
    assert_eq!(result_key(&c), "words_20_Easy");
    c.game_mode = GameMode::Time;
    c.default_time_limit = 120;
    c.word_list_difficulty = WordListDifficulty::Hard;
    assert_eq!(result_key(&c), "time_120_Hard");
}

#[test]
fn record_result_appends_under_the_key() {
    let mut c: Config<u32> = Config::default();
    record_result(&mut c, 7);
    record_result(&mut c, 9);
    let v = c.results.get(&"words_20_Easy".to_string()).unwrap();
    assert_eq!(v, &vec![7, 9]);
    c.default_test_length = 25;
    record_result(&mut c, 1);
    assert_eq!(c.results.len(), 2);
    assert_eq!(c.results.get(&"words_25_Easy".to_string()).unwrap(), &vec![1]);
    c.word_list_difficulty = WordListDifficulty::Medium;
    record_result(&mut c, 2);
    assert_eq!(c.results.get(&"words_25_Medium".to_string()).unwrap(), &vec![2]);
}
