use vstd::prelude::*;
use crate::config::{Config, GameMode, LayoutTheme, WordListDifficulty, difficulty_name, difficulty_label};
use crate::text::{decimal, decimal_string, padded, pad_right, law_decimal_injective};

verus! {

/// The number of settings the menu lists.
pub const MENU_ITEM_COUNT: usize = 5;

/// The settings menu: the configuration being edited, the highlighted item
/// and the message shown under the list.
#[derive(Debug)]
pub struct MenuState<R> {
    pub config: Config<R>,
    pub selected_item: usize,
    pub status_message: String,
}

/// A key press, as far as the menu tells keys apart.
#[derive(Debug, Clone, Copy, PartialEq, Eq, Structural)]
pub enum MenuKey {
    Quit,
    Up,
    Down,
    Left,
    Right,
    Enter,
    Other,
}

/// What the menu loop does after a key press.
#[derive(Debug, Clone, Copy, PartialEq, Eq, Structural)]
pub enum MenuAction {
    /// Draw the menu again and wait for the next key.
    Stay,
    /// Save the configuration, then report how that went.
    Save,
    /// Leave the menu.
    Leave,
}

/// The other game mode.
pub open spec fn toggled_mode(m: GameMode) -> GameMode {
    match m {
        GameMode::Words => GameMode::Time,
        GameMode::Time => GameMode::Words,
    }
}

/// The other layout.
pub open spec fn toggled_layout(l: LayoutTheme) -> LayoutTheme {
    match l {
        LayoutTheme::Default => LayoutTheme::Boxes,
        LayoutTheme::Boxes => LayoutTheme::Default,
    }
}

/// `v` raised to `floor` when below it.
pub open spec fn at_least(v: int, floor: int) -> int {
    if v < floor {
        floor
    } else {
        v
    }
}

/// The position of a difficulty in the cycle Easy, Medium, Hard.
pub open spec fn difficulty_index(d: WordListDifficulty) -> int {
    match d {
        WordListDifficulty::Easy => 0,
        WordListDifficulty::Medium => 1,
        WordListDifficulty::Hard => 2,
    }
}

/// The difficulty at position `i` of the cycle Easy, Medium, Hard.
pub open spec fn difficulty_at(i: int) -> WordListDifficulty {
    if i == 0 {
        WordListDifficulty::Easy
    } else if i == 1 {
        WordListDifficulty::Medium
    } else {
        WordListDifficulty::Hard
    }
}

/// The difficulty `direction` steps from `d` around the cycle Easy, Medium,
/// Hard.
pub open spec fn stepped_difficulty(d: WordListDifficulty, direction: int) -> WordListDifficulty {
    difficulty_at((difficulty_index(d) + direction) % 3)
}

/// What the change of a setting may not run into: the arithmetic of the
/// length and time settings staying within `i32`.
pub open spec fn change_allowed<R>(config: Config<R>, item: usize, direction: i32) -> bool {
    &&& item == 1 ==> i32::MIN <= (config.default_test_length as i32) + direction * 5 <= i32::MAX
    &&& item == 2 ==> i32::MIN <= (config.default_time_limit as i32) + direction * 5 <= i32::MAX
    &&& (item == 1 || item == 2) ==> i32::MIN <= direction * 5 <= i32::MAX
}

/// `after` is `before` with the setting at the highlighted item changed one
/// step in `direction`, as `change_value` does it.
pub open spec fn value_changed<R>(before: MenuState<R>, after: MenuState<R>, direction: i32) -> bool {
    &&& after.selected_item == before.selected_item
    &&& after.status_message == before.status_message
    &&& after.config.results@ == before.config.results@
    &&& after.config.language_packs@ == before.config.language_packs@
    &&& after.config.selected_language@ == before.config.selected_language@
    &&& after.config.restart_button == before.config.restart_button
    &&& after.config.color_theme == before.config.color_theme
    &&& after.config.game_mode == if before.selected_item == 0 {
        toggled_mode(before.config.game_mode)
    } else {
        before.config.game_mode
    }
    &&& after.config.default_test_length == if before.selected_item == 1 {
        at_least((before.config.default_test_length as i32) + direction * 5, 5) as usize
    } else {
        before.config.default_test_length
    }
    &&& after.config.default_time_limit == if before.selected_item == 2 {
        at_least((before.config.default_time_limit as i32) + direction * 5, 10) as u64
    } else {
        before.config.default_time_limit
    }
    &&& after.config.layout_theme == if before.selected_item == 3 {
        toggled_layout(before.config.layout_theme)
    } else {
        before.config.layout_theme
    }
    &&& after.config.word_list_difficulty == if before.selected_item == 4 {
        stepped_difficulty(before.config.word_list_difficulty, direction as int)
    } else {
        before.config.word_list_difficulty
    }
}

/// Changes the setting at `item` one step in `direction` (negative for
/// left, positive for right): the game mode and the layout flip; the test
/// length moves by five words, never below five; the time limit moves by
/// five seconds, never below ten; the word list difficulty moves around the
/// cycle Easy, Medium, Hard. Other items change nothing.
pub fn change_value<R>(state: &mut MenuState<R>, direction: i32)
    requires
        change_allowed(old(state).config, old(state).selected_item, direction),
    ensures
        value_changed(*old(state), *final(state), direction),
{
    if state.selected_item == 0 {
        state.config.game_mode = match state.config.game_mode {
            GameMode::Words => GameMode::Time,
            GameMode::Time => GameMode::Words,
        };
    } else if state.selected_item == 1 {
        let current = state.config.default_test_length as i32;
        let moved = current + direction * 5;
        let kept = if moved < 5 { 5 } else { moved };
        state.config.default_test_length = kept as usize;
    } else if state.selected_item == 2 {
        let current = state.config.default_time_limit as i32;
        let moved = current + direction * 5;
        let kept = if moved < 10 { 10 } else { moved };
        state.config.default_time_limit = kept as u64;
    } else if state.selected_item == 3 {
        state.config.layout_theme = match state.config.layout_theme {
            LayoutTheme::Default => LayoutTheme::Boxes,
            LayoutTheme::Boxes => LayoutTheme::Default,
        };
    } else if state.selected_item == 4 {
        let index: i64 = match state.config.word_list_difficulty {
            WordListDifficulty::Easy => 0,
            WordListDifficulty::Medium => 1,
            WordListDifficulty::Hard => 2,
        };
        let target: i64 = index + direction as i64;
        let next: i64 = match target.checked_rem_euclid(3) {
            Some(r) => r,
            None => 0,
        };
        state.config.word_list_difficulty = if next == 0 {
            WordListDifficulty::Easy
        } else if next == 1 {
            WordListDifficulty::Medium
        } else {
            WordListDifficulty::Hard
        };
    }
}

/// The label of a menu item.
pub open spec fn item_label(item: int) -> Seq<char> {
    if item == 0 {
        "Game Mode"@
    } else if item == 1 {
        "Test Length (Words)"@
    } else if item == 2 {
        "Time Limit (Seconds)"@
    } else if item == 3 {
        "Layout Theme"@
    } else {
        "Word List Difficulty"@
    }
}

/// The label of the menu item `item`.
pub fn menu_item_label(item: usize) -> (s: &'static str)
    requires
        item < MENU_ITEM_COUNT,
    ensures
        s@ == item_label(item as int),
{
    if item == 0 {
        "Game Mode"
    } else if item == 1 {
        "Test Length (Words)"
    } else if item == 2 {
        "Time Limit (Seconds)"
    } else if item == 3 {
        "Layout Theme"
    } else {
        "Word List Difficulty"
    }
}

/// How the value of a setting is shown.
pub open spec fn value_text<R>(config: Config<R>, item: int) -> Seq<char> {
    if item == 0 {
        match config.game_mode {
            GameMode::Words => "Words"@,
            GameMode::Time => "Time"@,
        }
    } else if item == 1 {
        decimal(config.default_test_length as nat) + " words"@
    } else if item == 2 {
        decimal(config.default_time_limit as nat) + " seconds"@
    } else if item == 3 {
        match config.layout_theme {
            LayoutTheme::Default => "Default"@,
            LayoutTheme::Boxes => "Boxes"@,
        }
    } else if item == 4 {
        difficulty_name(config.word_list_difficulty)
    } else {
        Seq::empty()
    }
}

/// The value of the setting at `item`, as the menu shows it.
pub fn get_value_string<R>(config: &Config<R>, item: usize) -> (s: String)
    ensures
        s@ == value_text(*config, item as int),
{
    if item == 0 {
        match config.game_mode {
            GameMode::Words => String::from_str("Words"),
            GameMode::Time => String::from_str("Time"),
        }
    } else if item == 1 {
        let mut s = decimal_string(config.default_test_length as u64);
        s.append(" words");
        s
    } else if item == 2 {
        let mut s = decimal_string(config.default_time_limit);
        s.append(" seconds");
        s
    } else if item == 3 {
        match config.layout_theme {
            LayoutTheme::Default => String::from_str("Default"),
            LayoutTheme::Boxes => String::from_str("Boxes"),
        }
    } else if item == 4 {
        String::from_str(difficulty_label(config.word_list_difficulty))
    } else {
        String::new()
    }
}

/// The line of the menu for `item`: its label padded to twenty-five
/// characters, a colon and the value.
pub fn menu_line<R>(config: &Config<R>, item: usize) -> (s: String)
    requires
        item < MENU_ITEM_COUNT,
    ensures
        s@ == padded(item_label(item as int), 25) + ": "@ + value_text(*config, item as int),
{
    let mut s = pad_right(menu_item_label(item), 25);
    s.append(": ");
    let v = get_value_string(config, item);
    s.append(v.as_str());
    s
}

impl<R> MenuState<R> {
    /// The menu as it opens: the first item highlighted and no message.
    pub fn new(config: Config<R>) -> (state: Self)
        ensures
            state.config == config,
            state.selected_item == 0,
            state.status_message@ == Seq::<char>::empty(),
    {
        MenuState { config, selected_item: 0, status_message: String::new() }
    }
}

/// What a key press asks of the menu that its own arithmetic may not run
/// into.
pub open spec fn step_allowed<R>(state: MenuState<R>, key: MenuKey) -> bool {
    &&& key == MenuKey::Down ==> state.selected_item < usize::MAX
    &&& key == MenuKey::Left ==> change_allowed(state.config, state.selected_item, -1i32)
    &&& key == MenuKey::Right ==> change_allowed(state.config, state.selected_item, 1)
}

/// `after` is the menu `before` after `key`: `Up` and `Down` move the
/// highlight within the list, `Left` and `Right` change the highlighted
/// setting, and other keys leave the menu as it was.
pub open spec fn menu_stepped<R>(before: MenuState<R>, after: MenuState<R>, key: MenuKey) -> bool {
    match key {
        MenuKey::Up => {
            &&& after.selected_item == if before.selected_item == 0 {
                0
            } else {
                (before.selected_item - 1) as usize
            }
            &&& after.config == before.config
            &&& after.status_message == before.status_message
        },
        MenuKey::Down => {
            &&& after.selected_item == if before.selected_item + 1 < MENU_ITEM_COUNT {
                (before.selected_item + 1) as usize
            } else {
                (MENU_ITEM_COUNT - 1) as usize
            }
            &&& after.config == before.config
            &&& after.status_message == before.status_message
        },
        MenuKey::Left => value_changed(before, after, -1i32),
        MenuKey::Right => value_changed(before, after, 1i32),
        _ => after == before,
    }
}

/// What the menu loop does after `key`: leave on `Quit`, save on `Enter`,
/// and otherwise stay.
pub open spec fn action_for(key: MenuKey) -> MenuAction {
    match key {
        MenuKey::Quit => MenuAction::Leave,
        MenuKey::Enter => MenuAction::Save,
        _ => MenuAction::Stay,
    }
}

/// A run of the menu: `states[0]` is where it starts, and each key
/// `keys[i]` takes `states[i]` to `states[i + 1]`, answered by `actions[i]`.
pub open spec fn menu_run<R>(states: Seq<MenuState<R>>, keys: Seq<MenuKey>, actions: Seq<MenuAction>) -> bool {
    &&& states.len() == keys.len() + 1
    &&& actions.len() == keys.len()
    &&& forall|i: int|
        0 <= i < keys.len() ==> #[trigger] menu_stepped(states[i], states[i + 1], keys[i])
            && actions[i] == action_for(keys[i])
}

/// Handles one key press: `Quit` leaves; `Up` and `Down` move the highlight
/// within the list; `Left` and `Right` change the highlighted setting;
/// `Enter` asks for the configuration to be saved; other keys do nothing.
pub fn menu_step<R>(state: &mut MenuState<R>, key: MenuKey) -> (action: MenuAction)
    requires
        step_allowed(*old(state), key),
    ensures
        action == action_for(key),
        menu_stepped(*old(state), *final(state), key),
{
    match key {
        MenuKey::Quit => MenuAction::Leave,
        MenuKey::Up => {
            if state.selected_item > 0 {
                state.selected_item = state.selected_item - 1;
            }
            MenuAction::Stay
        },
        MenuKey::Down => {
            let next = state.selected_item + 1;
            state.selected_item = if next < MENU_ITEM_COUNT { next } else { MENU_ITEM_COUNT - 1 };
            MenuAction::Stay
        },
        MenuKey::Left => {
            change_value(state, -1);
            MenuAction::Stay
        },
        MenuKey::Right => {
            change_value(state, 1);
            MenuAction::Stay
        },
        MenuKey::Enter => MenuAction::Save,
        MenuKey::Other => MenuAction::Stay,
    }
}

/// The message shown after a save: success, or the error's text after
/// "Error saving config: ".
pub open spec fn save_message(outcome: Result<(), Seq<char>>) -> Seq<char> {
    match outcome {
        Ok(_) => "Config saved successfully!"@,
        Err(e) => "Error saving config: "@ + e,
    }
}

/// Shows how the save asked for by `Enter` went; `error` holds the text of
/// the error, if there was one.
pub fn note_save_outcome<R>(state: &mut MenuState<R>, outcome: Result<(), String>)
    ensures
        final(state).status_message@ == save_message(
            match outcome {
                Ok(u) => Ok(u),
                Err(e) => Err(e@),
            },
        ),
        final(state).config == old(state).config,
        final(state).selected_item == old(state).selected_item,
{
    match outcome {
        Ok(_) => {
            state.status_message = String::from_str("Config saved successfully!");
        },
        Err(e) => {
            let mut m = String::from_str("Error saving config: ");
            m.append(e.as_str());
            state.status_message = m;
        },
    }
}

/// Law: the highlight never leaves the list of settings.
pub proof fn law_highlight_stays_in_list<R>(before: MenuState<R>, after: MenuState<R>, key: MenuKey)
    requires
        before.selected_item < MENU_ITEM_COUNT,
        menu_stepped(before, after, key),
    ensures
        after.selected_item < MENU_ITEM_COUNT,
{
}

/// Law: in a run of the menu that opens on the first item, the highlight is
/// on one of the five settings in every frame.
pub proof fn law_menu_run_stays_in_list<R>(
    states: Seq<MenuState<R>>,
    keys: Seq<MenuKey>,
    actions: Seq<MenuAction>,
    i: int,
)
    requires
        menu_run(states, keys, actions),
        states[0].selected_item == 0,
        0 <= i < states.len(),
    ensures
        states[i].selected_item < MENU_ITEM_COUNT,
    decreases i,
{
    if i > 0 {
        law_menu_run_stays_in_list(states, keys, actions, i - 1);
        assert(menu_stepped(states[i - 1], states[i - 1 + 1], keys[i - 1]));
        law_highlight_stays_in_list(states[i - 1], states[i], keys[i - 1]);
    }
}

/// Law: in a run of the menu, the configuration is saved exactly at the
/// `Enter` keys, as it stands then (the key itself changes nothing), and
/// the menu is left exactly at the `Quit` keys, which change nothing either;
/// so nothing changed after the last `Enter` is saved when the menu is left.
pub proof fn law_menu_run_saves_at_enter<R>(
    states: Seq<MenuState<R>>,
    keys: Seq<MenuKey>,
    actions: Seq<MenuAction>,
)
    requires
        menu_run(states, keys, actions),
    ensures
        forall|i: int| 0 <= i < keys.len() ==> (#[trigger] actions[i] == MenuAction::Save) == (keys[i] == MenuKey::Enter),
        forall|i: int| 0 <= i < keys.len() ==> (#[trigger] actions[i] == MenuAction::Leave) == (keys[i] == MenuKey::Quit),
        forall|i: int| 0 <= i < keys.len() && #[trigger] actions[i] != MenuAction::Stay ==> states[i + 1] == states[i],
{
    assert forall|i: int| 0 <= i < keys.len() implies (#[trigger] actions[i] == MenuAction::Save) == (keys[i] == MenuKey::Enter) by {
        assert(menu_stepped(states[i], states[i + 1], keys[i]));
    }
    assert forall|i: int| 0 <= i < keys.len() implies (#[trigger] actions[i] == MenuAction::Leave) == (keys[i] == MenuKey::Quit) by {
        assert(menu_stepped(states[i], states[i + 1], keys[i]));
    }
    assert forall|i: int| 0 <= i < keys.len() && #[trigger] actions[i] != MenuAction::Stay implies states[i + 1] == states[i] by {
        assert(menu_stepped(states[i], states[i + 1], keys[i]));
    }
}

/// Law: changing the game mode twice, in any directions, gives back the
/// mode one started from; so does changing the layout twice.
pub proof fn law_toggles_flip_back<R>(
    a: MenuState<R>,
    b: MenuState<R>,
    c: MenuState<R>,
    d1: i32,
    d2: i32,
)
    requires
        value_changed(a, b, d1),
        value_changed(b, c, d2),
    ensures
        a.selected_item == 0 ==> c.config.game_mode == a.config.game_mode && b.config.game_mode
            != a.config.game_mode,
        a.selected_item == 3 ==> c.config.layout_theme == a.config.layout_theme
            && b.config.layout_theme != a.config.layout_theme,
{
}

/// Law: a change never takes the test length below five words, nor the time
/// limit below ten seconds.
pub proof fn law_settings_floors<R>(a: MenuState<R>, b: MenuState<R>, d: i32)
    requires
        change_allowed(a.config, a.selected_item, d),
        value_changed(a, b, d),
    ensures
        a.selected_item == 1 ==> b.config.default_test_length >= 5,
        a.selected_item == 2 ==> b.config.default_time_limit >= 10,
{
}

/// Law: a step right then a step left gives back a test length of at least
/// five (a time limit of at least ten), and a step left then a step right
/// gives back one of at least ten (fifteen), as long as the `i32` arithmetic
/// of the setting has room.
pub proof fn law_length_and_time_steps_undo<R>(
    a: MenuState<R>,
    b: MenuState<R>,
    c: MenuState<R>,
    d: i32,
)
    requires
        value_changed(a, b, d),
        value_changed(b, c, (-d) as i32),
        d == 1 || d == -1,
        a.selected_item == 1 ==> a.config.default_test_length <= i32::MAX - 5,
        a.selected_item == 2 ==> a.config.default_time_limit <= i32::MAX - 5,
    ensures
        a.selected_item == 1 && (d == 1 && a.config.default_test_length >= 5 || d == -1
            && a.config.default_test_length >= 10) ==> c.config.default_test_length
            == a.config.default_test_length,
        a.selected_item == 2 && (d == 1 && a.config.default_time_limit >= 10 || d == -1
            && a.config.default_time_limit >= 15) ==> c.config.default_time_limit
            == a.config.default_time_limit,
{
    let len = a.config.default_test_length;
    let t = a.config.default_time_limit;
    assert(len <= i32::MAX ==> (len as i32) == len as int);
    assert(t <= i32::MAX ==> (t as i32) == t as int);
    if a.selected_item == 1 {
        let l1 = b.config.default_test_length;
        assert(l1 <= i32::MAX ==> (l1 as i32) == l1 as int);
    }
    if a.selected_item == 2 {
        let t1 = b.config.default_time_limit;
        assert(t1 <= i32::MAX ==> (t1 as i32) == t1 as int);
    }
}

/// Law: a step of the difficulty one way and then the other gives back the
/// difficulty; three steps the same way go round the cycle to it.
pub proof fn law_difficulty_steps_undo<R>(a: MenuState<R>, b: MenuState<R>, c: MenuState<R>, d: i32)
    requires
        a.selected_item == 4,
        value_changed(a, b, d),
        value_changed(b, c, (-d) as i32),
        -d <= i32::MAX,
    ensures
        c.config.word_list_difficulty == a.config.word_list_difficulty,
{
    let i = difficulty_index(a.config.word_list_difficulty);
    let j = (i + d) % 3;
    assert(difficulty_index(b.config.word_list_difficulty) == j);
    vstd::arithmetic::div_mod::lemma_add_mod_noop(i + d, -d, 3);
    vstd::arithmetic::div_mod::lemma_add_mod_noop(j, -d, 3);
    vstd::arithmetic::div_mod::lemma_small_mod(j as nat, 3);
    vstd::arithmetic::div_mod::lemma_small_mod(i as nat, 3);
    assert(((-d) as i32) as int == -d);
    assert((j + (-d)) % 3 == i);
}

/// Law: three steps of the difficulty in the same direction go round the
/// cycle Easy, Medium, Hard back to where they started.
pub proof fn law_difficulty_cycle(d: WordListDifficulty, step: int)
    requires
        step == 1 || step == -1,
    ensures
        stepped_difficulty(stepped_difficulty(stepped_difficulty(d, step), step), step) == d,
{
}

proof fn lemma_same_suffix(a: Seq<char>, b: Seq<char>, t: Seq<char>)
    requires
        a + t == b + t,
    ensures
        a == b,
{
    assert(a =~= (a + t).subrange(0, a.len() as int));
    assert(b =~= (b + t).subrange(0, b.len() as int));
}

/// Law: the value shown for a setting tells the setting apart: two
/// configurations that differ in the game mode, the test length, the time
/// limit, the layout or the difficulty show different texts for that item.
pub proof fn law_shown_values_tell_settings_apart<R>(a: Config<R>, b: Config<R>)
    ensures
        a.game_mode != b.game_mode ==> value_text(a, 0) != value_text(b, 0),
        a.default_test_length != b.default_test_length ==> value_text(a, 1) != value_text(b, 1),
        a.default_time_limit != b.default_time_limit ==> value_text(a, 2) != value_text(b, 2),
        a.layout_theme != b.layout_theme ==> value_text(a, 3) != value_text(b, 3),
        a.word_list_difficulty != b.word_list_difficulty ==> value_text(a, 4) != value_text(b, 4),
{
    reveal_strlit("Words");
    reveal_strlit("Time");
    reveal_strlit("Default");
    reveal_strlit("Boxes");
    reveal_strlit("Easy");
    reveal_strlit("Medium");
    reveal_strlit("Hard");
    if a.default_test_length != b.default_test_length {
        law_decimal_injective(a.default_test_length as nat, b.default_test_length as nat);
        if value_text(a, 1) == value_text(b, 1) {
            lemma_same_suffix(decimal(a.default_test_length as nat), decimal(b.default_test_length as nat), " words"@);
        }
    }
    if a.default_time_limit != b.default_time_limit {
        law_decimal_injective(a.default_time_limit as nat, b.default_time_limit as nat);
        if value_text(a, 2) == value_text(b, 2) {
            lemma_same_suffix(decimal(a.default_time_limit as nat), decimal(b.default_time_limit as nat), " seconds"@);
        }
    }
    assert("Words"@ != "Time"@) by {
        assert("Words"@.len() != "Time"@.len());
    }
    assert("Default"@ != "Boxes"@) by {
        assert("Default"@.len() != "Boxes"@.len());
    }
    assert("Easy"@ != "Medium"@) by {
        assert("Easy"@.len() != "Medium"@.len());
    }
    assert("Hard"@ != "Medium"@) by {
        assert("Hard"@.len() != "Medium"@.len());
    }
    assert("Easy"@ != "Hard"@) by {
        assert("Easy"@[0] != "Hard"@[0]);
    }
}

/// Law: the game-mode item shows "Time" exactly when the timed mode is set,
/// and "Words" exactly when the words mode is.
pub proof fn law_mode_value_names_mode<R>(c: Config<R>)
    ensures
        (value_text(c, 0) == "Time"@) == (c.game_mode == GameMode::Time),
        (value_text(c, 0) == "Words"@) == (c.game_mode == GameMode::Words),
{
    reveal_strlit("Words");
    reveal_strlit("Time");
    assert("Words"@.len() != "Time"@.len());
}

} // verus!
