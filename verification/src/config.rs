use vstd::prelude::*;
use crate::results::ResultLog;
use crate::text::{decimal, push_decimal};

verus! {

/// A named list of words to practise with.
#[derive(Debug, Clone)]
pub struct LanguagePack {
    pub name: String,
    pub words: Vec<String>,
}

/// How the words are drawn on the screen.
#[derive(Debug, Clone, Copy, PartialEq, Eq, Structural)]
pub enum LayoutTheme {
    Default,
    Boxes,
}

/// The colours, as RGB triples, of correct, incorrect and untyped characters.
#[derive(Debug, Clone, Copy)]
pub struct ColorTheme {
    pub correct: (u8, u8, u8),
    pub incorrect: (u8, u8, u8),
    pub default: (u8, u8, u8),
}

impl Default for ColorTheme {
    /// Green for correct, red for incorrect, white for untyped characters.
    fn default() -> (theme: Self)
        ensures
            theme.correct == (0u8, 255u8, 0u8),
            theme.incorrect == (255u8, 0u8, 0u8),
            theme.default == (255u8, 255u8, 255u8),
    {
        ColorTheme { correct: (0, 255, 0), incorrect: (255, 0, 0), default: (255, 255, 255) }
    }
}

/// Whether a test ends after a number of words or after a time limit.
#[derive(Debug, Clone, Copy, PartialEq, Eq, Structural)]
pub enum GameMode {
    Words,
    Time,
}

/// How hard the words of a test are: short common words, everyday words of
/// medium length, or long words.
#[derive(Debug, Clone, Copy, PartialEq, Eq, Structural)]
pub enum WordListDifficulty {
    Easy,
    Medium,
    Hard,
}

/// The settings of the typing test, the saved results (each of type `R`) and
/// the language packs that were found.
#[derive(Debug)]
pub struct Config<R> {
    pub default_test_length: usize,
    pub default_time_limit: u64,
    pub game_mode: GameMode,
    pub restart_button: bool,
    pub color_theme: ColorTheme,
    pub layout_theme: LayoutTheme,
    pub word_list_difficulty: WordListDifficulty,
    pub results: ResultLog<R>,
    pub language_packs: Vec<LanguagePack>,
    pub selected_language: String,
}

/// The settings of a configuration that was just made: twenty words, sixty
/// seconds, the words mode, restart allowed, the default colours and layout,
/// easy words, no results, no language packs and English selected.
pub open spec fn is_default_config<R>(c: Config<R>) -> bool {
    &&& c.default_test_length == 20
    &&& c.default_time_limit == 60
    &&& c.game_mode == GameMode::Words
    &&& c.restart_button
    &&& c.color_theme.correct == (0u8, 255u8, 0u8)
    &&& c.color_theme.incorrect == (255u8, 0u8, 0u8)
    &&& c.color_theme.default == (255u8, 255u8, 255u8)
    &&& c.layout_theme == LayoutTheme::Default
    &&& c.word_list_difficulty == WordListDifficulty::Easy
    &&& c.results@ == Map::<Seq<char>, Seq<R>>::empty()
    &&& c.language_packs@.len() == 0
    &&& c.selected_language@ == english()
}

/// The name of the language selected when no pack says otherwise.
pub open spec fn english() -> Seq<char> {
    seq!['e', 'n', 'g', 'l', 'i', 's', 'h']
}

impl<R> Default for Config<R> {
    fn default() -> (c: Self)
        ensures
            is_default_config(c),
    {
        let selected = String::from_str("english");
        proof {
            reveal_strlit("english");
            assert(selected@ =~= english());
        }
        Config {
            default_test_length: 20,
            default_time_limit: 60,
            game_mode: GameMode::Words,
            restart_button: true,
            color_theme: ColorTheme::default(),
            layout_theme: LayoutTheme::Default,
            word_list_difficulty: WordListDifficulty::Easy,
            results: ResultLog::new(),
            language_packs: Vec::new(),
            selected_language: selected,
        }
    }
}

/// Some pack in `packs` has the name `name`.
pub open spec fn names_pack(packs: Seq<LanguagePack>, name: Seq<char>) -> bool {
    exists|i: int| 0 <= i < packs.len() && #[trigger] packs[i].name@ == name
}

/// `i` is the first position in `packs` of a pack named `name`.
pub open spec fn first_named(packs: Seq<LanguagePack>, name: Seq<char>, i: int) -> bool {
    &&& 0 <= i < packs.len()
    &&& packs[i].name@ == name
    &&& forall|j: int| 0 <= j < i ==> #[trigger] packs[j].name@ != name
}

/// The language selected by default: the first pack's name, or English when
/// there is no pack.
pub open spec fn default_language_of(packs: Seq<LanguagePack>) -> Seq<char> {
    if packs.len() == 0 {
        english()
    } else {
        packs[0].name@
    }
}

/// The position of the first pack named `name`, if any.
pub fn find_language(packs: &Vec<LanguagePack>, name: &String) -> (r: Option<usize>)
    ensures
        match r {
            Some(i) => first_named(packs@, name@, i as int),
            None => !names_pack(packs@, name@),
        },
{
    let mut i: usize = 0;
    while i < packs.len()
        invariant
            i <= packs@.len(),
            forall|j: int| 0 <= j < i ==> #[trigger] packs@[j].name@ != name@,
        decreases packs@.len() - i,
    {
        if packs[i].name == *name {
            return Some(i);
        }
        i = i + 1;
    }
    None
}

/// The language selected by default for `packs`.
pub fn default_language(packs: &Vec<LanguagePack>) -> (name: String)
    ensures
        name@ == default_language_of(packs@),
{
    if packs.len() == 0 {
        let name = String::from_str("english");
        proof {
            reveal_strlit("english");
            assert(name@ =~= english());
        }
        name
    } else {
        packs[0].name.clone()
    }
}

/// `a` and `b` hold the same settings and the same results.
pub open spec fn same_settings<R>(a: Config<R>, b: Config<R>) -> bool {
    &&& a.default_test_length == b.default_test_length
    &&& a.default_time_limit == b.default_time_limit
    &&& a.game_mode == b.game_mode
    &&& a.restart_button == b.restart_button
    &&& a.color_theme == b.color_theme
    &&& a.layout_theme == b.layout_theme
    &&& a.word_list_difficulty == b.word_list_difficulty
    &&& a.results@ == b.results@
}

/// `after` is `before` with the language packs `packs`, its selected
/// language kept if a pack names it, else replaced by `fallback`.
pub open spec fn adopted<R>(before: Config<R>, packs: Seq<LanguagePack>, fallback: Seq<char>, after: Config<R>) -> bool {
    &&& same_settings(before, after)
    &&& after.language_packs@ == packs
    &&& after.selected_language@ == if names_pack(packs, before.selected_language@) {
        before.selected_language@
    } else {
        fallback
    }
}

/// `c` is the configuration to start from given the one read back, if any,
/// and the language packs found: the one read back with `packs` in it, or
/// else a fresh one; a selected language that no pack names gives way to the
/// default language of `packs`.
pub open spec fn resolved_from<R>(loaded: Option<Config<R>>, packs: Seq<LanguagePack>, c: Config<R>) -> bool {
    match loaded {
        Some(l) => adopted(l, packs, default_language_of(packs), c),
        None => {
            &&& c.default_test_length == 20
            &&& c.default_time_limit == 60
            &&& c.game_mode == GameMode::Words
            &&& c.restart_button
            &&& c.color_theme.correct == (0u8, 255u8, 0u8)
            &&& c.color_theme.incorrect == (255u8, 0u8, 0u8)
            &&& c.color_theme.default == (255u8, 255u8, 255u8)
            &&& c.layout_theme == LayoutTheme::Default
            &&& c.word_list_difficulty == WordListDifficulty::Easy
            &&& c.results@ == Map::<Seq<char>, Seq<R>>::empty()
            &&& c.language_packs@ == packs
            &&& c.selected_language@ == default_language_of(packs)
        },
    }
}

/// Puts `packs` in the configuration; a selected language that no pack
/// names gives way to `fallback`.
pub fn adopt_language_packs<R>(config: &mut Config<R>, packs: Vec<LanguagePack>, fallback: String)
    ensures
        adopted(*old(config), packs@, fallback@, *final(config)),
        names_pack(packs@, fallback@) ==> names_pack(
            final(config).language_packs@,
            final(config).selected_language@,
        ),
{
    let known = find_language(&packs, &config.selected_language);
    config.language_packs = packs;
    if known.is_none() {
        config.selected_language = fallback;
    }
}

/// The configuration to start from: the one read back, if any, with `packs`
/// in it, else a fresh one; a selected language that no pack names gives way
/// to the default language of `packs`.
pub fn resolve_config<R>(loaded: Option<Config<R>>, packs: Vec<LanguagePack>) -> (c: Config<R>)
    ensures
        resolved_from(loaded, packs@, c),
        packs@.len() > 0 ==> names_pack(c.language_packs@, c.selected_language@),
{
    let fallback = default_language(&packs);
    assert(packs@.len() > 0 ==> packs@[0].name@ == fallback@);
    match loaded {
        Some(mut c) => {
            adopt_language_packs(&mut c, packs, fallback);
            c
        },
        None => {
            let mut c: Config<R> = Config::default();
            c.language_packs = packs;
            c.selected_language = fallback;
            c
        },
    }
}

/// Law: a configuration read back whose selected language one of the packs
/// found names comes out as it was saved, with those packs in it: settings,
/// results and selected language unchanged.
pub proof fn law_saved_config_comes_back<R>(saved: Config<R>, packs: Seq<LanguagePack>, c: Config<R>)
    requires
        names_pack(packs, saved.selected_language@),
        resolved_from(Some(saved), packs, c),
    ensures
        same_settings(saved, c),
        c.selected_language@ == saved.selected_language@,
        c.language_packs@ == packs,
{
}

/// Law: loading is stable. A configuration made fresh for the packs found
/// (what is written when there is no valid file), put through the second
/// pack refresh, is unchanged; reading it back and loading it again, with the
/// same packs, gives the same configuration field by field. Loading an
/// unchanged valid file twice gives the same result, as both loads take the
/// same inputs.
pub proof fn law_load_is_stable<R>(
    packs: Seq<LanguagePack>,
    fresh: Config<R>,
    first: Config<R>,
    reread: Config<R>,
    second: Config<R>,
)
    requires
        resolved_from(None, packs, fresh),
        adopted(fresh, packs, default_language_of(packs), first),
        resolved_from(Some(fresh), packs, reread),
        adopted(reread, packs, default_language_of(packs), second),
    ensures
        same_settings(fresh, first),
        first.selected_language@ == fresh.selected_language@,
        same_settings(first, second),
        second.selected_language@ == first.selected_language@,
        second.language_packs@ == first.language_packs@,
{
    if packs.len() > 0 {
        assert(names_pack(packs, packs[0].name@));
    }
}

/// Law: refreshing the packs twice with the same packs and fallback gives
/// what the first refresh gave.
pub proof fn law_adopt_is_idempotent<R>(
    c: Config<R>,
    packs: Seq<LanguagePack>,
    fallback: Seq<char>,
    once: Config<R>,
    twice: Config<R>,
)
    requires
        names_pack(packs, fallback),
        adopted(c, packs, fallback, once),
        adopted(once, packs, fallback, twice),
    ensures
        same_settings(once, twice),
        twice.selected_language@ == once.selected_language@,
        twice.language_packs@ == once.language_packs@,
{
}

/// The name of a difficulty, as the menu shows it.
pub open spec fn difficulty_name(d: WordListDifficulty) -> Seq<char> {
    match d {
        WordListDifficulty::Easy => "Easy"@,
        WordListDifficulty::Medium => "Medium"@,
        WordListDifficulty::Hard => "Hard"@,
    }
}

/// The name of the difficulty `d`.
pub fn difficulty_label(d: WordListDifficulty) -> (s: &'static str)
    ensures
        s@ == difficulty_name(d),
{
    match d {
        WordListDifficulty::Easy => "Easy",
        WordListDifficulty::Medium => "Medium",
        WordListDifficulty::Hard => "Hard",
    }
}

/// The key under which a result is saved: the mode, the word count or the
/// time limit, and the difficulty, joined by underscores, as in
/// `words_20_Easy` or `time_60_Hard`.
pub open spec fn result_key_of<R>(c: Config<R>) -> Seq<char> {
    match c.game_mode {
        GameMode::Words => "words_"@ + decimal(c.default_test_length as nat) + "_"@ + difficulty_name(
            c.word_list_difficulty,
        ),
        GameMode::Time => "time_"@ + decimal(c.default_time_limit as nat) + "_"@ + difficulty_name(
            c.word_list_difficulty,
        ),
    }
}

/// The key under which the result of a test with `config` is saved.
pub fn result_key<R>(config: &Config<R>) -> (key: String)
    ensures
        key@ == result_key_of(*config),
{
    let mut key = match config.game_mode {
        GameMode::Words => {
            let mut k = String::from_str("words_");
            push_decimal(&mut k, config.default_test_length as u64);
            k
        },
        GameMode::Time => {
            let mut k = String::from_str("time_");
            push_decimal(&mut k, config.default_time_limit);
            k
        },
    };
    key.append("_");
    key.append(difficulty_label(config.word_list_difficulty));
    key
}

/// Saves `result` at the end of the results of the current settings.
pub fn record_result<R>(config: &mut Config<R>, result: R)
    ensures
        final(config).results@ == old(config).results@.insert(
            result_key_of(*old(config)),
            if old(config).results@.contains_key(result_key_of(*old(config))) {
                old(config).results@[result_key_of(*old(config))].push(result)
            } else {
                seq![result]
            },
        ),
        final(config).default_test_length == old(config).default_test_length,
        final(config).default_time_limit == old(config).default_time_limit,
        final(config).game_mode == old(config).game_mode,
        final(config).restart_button == old(config).restart_button,
        final(config).color_theme == old(config).color_theme,
        final(config).layout_theme == old(config).layout_theme,
        final(config).word_list_difficulty == old(config).word_list_difficulty,
        final(config).language_packs == old(config).language_packs,
        final(config).selected_language == old(config).selected_language,
{
    let key = result_key(config);
    config.results.record(key, result);
}

/// The words a test of difficulty `d` draws from.
pub open spec fn difficulty_list(d: WordListDifficulty) -> Seq<Seq<char>> {
    match d {
        WordListDifficulty::Easy => seq![
            "the"@,
            "and"@,
            "cat"@,
            "dog"@,
            "sun"@,
            "run"@,
            "big"@,
            "red"@,
            "hat"@,
            "cup"@,
            "pen"@,
            "box"@,
            "map"@,
            "sit"@,
            "top"@,
            "fun"@,
            "bed"@,
            "car"@,
            "egg"@,
            "fox"@,
            "jam"@,
            "kid"@,
            "leg"@,
            "man"@,
            "nut"@,
        ],
        WordListDifficulty::Medium => seq![
            "apple"@,
            "river"@,
            "green"@,
            "house"@,
            "table"@,
            "water"@,
            "light"@,
            "happy"@,
            "chair"@,
            "music"@,
            "bread"@,
            "plant"@,
            "smile"@,
            "train"@,
            "cloud"@,
            "stone"@,
            "paper"@,
            "dream"@,
            "horse"@,
            "beach"@,
            "clock"@,
            "fruit"@,
            "money"@,
            "night"@,
            "phone"@,
        ],
        WordListDifficulty::Hard => seq![
            "beautiful"@,
            "knowledge"@,
            "challenge"@,
            "different"@,
            "important"@,
            "structure"@,
            "adventure"@,
            "necessary"@,
            "community"@,
            "wonderful"@,
            "technology"@,
            "government"@,
            "experience"@,
            "understand"@,
            "particular"@,
            "environment"@,
            "development"@,
            "information"@,
            "temperature"@,
            "independent"@,
            "mathematics"@,
            "responsibility"@,
            "extraordinary"@,
            "communication"@,
            "opportunity"@,
        ],
    }
}

fn push_word(v: &mut Vec<String>, w: &str)
    ensures
        final(v)@.len() == old(v)@.len() + 1,
        forall|i: int| 0 <= i < old(v)@.len() ==> final(v)@[i] == old(v)@[i],
        final(v)@[old(v)@.len() as int]@ == w@,
{
    v.push(String::from_str(w));
}

/// The words a test of difficulty `d` draws from.
pub fn difficulty_words(d: WordListDifficulty) -> (words: Vec<String>)
    ensures
        words@.len() == difficulty_list(d).len(),
        forall|i: int| 0 <= i < words@.len() ==> (#[trigger] words@[i])@ == difficulty_list(d)[i],
{
    let mut v: Vec<String> = Vec::new();
    match d {
        WordListDifficulty::Easy => {
            push_word(&mut v, "the");
            push_word(&mut v, "and");
            push_word(&mut v, "cat");
            push_word(&mut v, "dog");
            push_word(&mut v, "sun");
            push_word(&mut v, "run");
            push_word(&mut v, "big");
            push_word(&mut v, "red");
            push_word(&mut v, "hat");
            push_word(&mut v, "cup");
            push_word(&mut v, "pen");
            push_word(&mut v, "box");
            push_word(&mut v, "map");
            push_word(&mut v, "sit");
            push_word(&mut v, "top");
            push_word(&mut v, "fun");
            push_word(&mut v, "bed");
            push_word(&mut v, "car");
            push_word(&mut v, "egg");
            push_word(&mut v, "fox");
            push_word(&mut v, "jam");
            push_word(&mut v, "kid");
            push_word(&mut v, "leg");
            push_word(&mut v, "man");
            push_word(&mut v, "nut");
        },
        WordListDifficulty::Medium => {
            push_word(&mut v, "apple");
            push_word(&mut v, "river");
            push_word(&mut v, "green");
            push_word(&mut v, "house");
            push_word(&mut v, "table");
            push_word(&mut v, "water");
            push_word(&mut v, "light");
            push_word(&mut v, "happy");
            push_word(&mut v, "chair");
            push_word(&mut v, "music");
            push_word(&mut v, "bread");
            push_word(&mut v, "plant");
            push_word(&mut v, "smile");
            push_word(&mut v, "train");
            push_word(&mut v, "cloud");
            push_word(&mut v, "stone");
            push_word(&mut v, "paper");
            push_word(&mut v, "dream");
            push_word(&mut v, "horse");
            push_word(&mut v, "beach");
            push_word(&mut v, "clock");
            push_word(&mut v, "fruit");
            push_word(&mut v, "money");
            push_word(&mut v, "night");
            push_word(&mut v, "phone");
        },
        WordListDifficulty::Hard => {
            push_word(&mut v, "beautiful");
            push_word(&mut v, "knowledge");
            push_word(&mut v, "challenge");
            push_word(&mut v, "different");
            push_word(&mut v, "important");
            push_word(&mut v, "structure");
            push_word(&mut v, "adventure");
            push_word(&mut v, "necessary");
            push_word(&mut v, "community");
            push_word(&mut v, "wonderful");
            push_word(&mut v, "technology");
            push_word(&mut v, "government");
            push_word(&mut v, "experience");
            push_word(&mut v, "understand");
            push_word(&mut v, "particular");
            push_word(&mut v, "environment");
            push_word(&mut v, "development");
            push_word(&mut v, "information");
            push_word(&mut v, "temperature");
            push_word(&mut v, "independent");
            push_word(&mut v, "mathematics");
            push_word(&mut v, "responsibility");
            push_word(&mut v, "extraordinary");
            push_word(&mut v, "communication");
            push_word(&mut v, "opportunity");
        },
    }
    assert(v@.len() == difficulty_list(d).len());
    assert forall|i: int| 0 <= i < v@.len() implies (#[trigger] v@[i])@ == difficulty_list(d)[i] by {
    }
    v
}

/// Law: the three difficulties draw from different words, ordered by
/// length: every Easy word is shorter than every Medium word, which is
/// shorter than every Hard word; no list is empty.
pub proof fn law_difficulties_grow_harder()
    ensures
        difficulty_list(WordListDifficulty::Easy).len() > 0,
        difficulty_list(WordListDifficulty::Medium).len() > 0,
        difficulty_list(WordListDifficulty::Hard).len() > 0,
        forall|i: int, j: int|
            0 <= i < difficulty_list(WordListDifficulty::Easy).len() && 0 <= j < difficulty_list(
                WordListDifficulty::Medium,
            ).len() ==> (#[trigger] difficulty_list(WordListDifficulty::Easy)[i]).len() < (
            #[trigger] difficulty_list(WordListDifficulty::Medium)[j]).len(),
        forall|i: int, j: int|
            0 <= i < difficulty_list(WordListDifficulty::Medium).len() && 0 <= j < difficulty_list(
                WordListDifficulty::Hard,
            ).len() ==> (#[trigger] difficulty_list(WordListDifficulty::Medium)[i]).len() < (
            #[trigger] difficulty_list(WordListDifficulty::Hard)[j]).len(),
{
    reveal_strlit("the");
    reveal_strlit("and");
    reveal_strlit("cat");
    reveal_strlit("dog");
    reveal_strlit("sun");
    reveal_strlit("run");
    reveal_strlit("big");
    reveal_strlit("red");
    reveal_strlit("hat");
    reveal_strlit("cup");
    reveal_strlit("pen");
    reveal_strlit("box");
    reveal_strlit("map");
    reveal_strlit("sit");
    reveal_strlit("top");
    reveal_strlit("fun");
    reveal_strlit("bed");
    reveal_strlit("car");
    reveal_strlit("egg");
    reveal_strlit("fox");
    reveal_strlit("jam");
    reveal_strlit("kid");
    reveal_strlit("leg");
    reveal_strlit("man");
    reveal_strlit("nut");
    reveal_strlit("apple");
    reveal_strlit("river");
    reveal_strlit("green");
    reveal_strlit("house");
    reveal_strlit("table");
    reveal_strlit("water");
    reveal_strlit("light");
    reveal_strlit("happy");
    reveal_strlit("chair");
    reveal_strlit("music");
    reveal_strlit("bread");
    reveal_strlit("plant");
    reveal_strlit("smile");
    reveal_strlit("train");
    reveal_strlit("cloud");
    reveal_strlit("stone");
    reveal_strlit("paper");
    reveal_strlit("dream");
    reveal_strlit("horse");
    reveal_strlit("beach");
    reveal_strlit("clock");
    reveal_strlit("fruit");
    reveal_strlit("money");
    reveal_strlit("night");
    reveal_strlit("phone");
    reveal_strlit("beautiful");
    reveal_strlit("knowledge");
    reveal_strlit("challenge");
    reveal_strlit("different");
    reveal_strlit("important");
    reveal_strlit("structure");
    reveal_strlit("adventure");
    reveal_strlit("necessary");
    reveal_strlit("community");
    reveal_strlit("wonderful");
    reveal_strlit("technology");
    reveal_strlit("government");
    reveal_strlit("experience");
    reveal_strlit("understand");
    reveal_strlit("particular");
    reveal_strlit("environment");
    reveal_strlit("development");
    reveal_strlit("information");
    reveal_strlit("temperature");
    reveal_strlit("independent");
    reveal_strlit("mathematics");
    reveal_strlit("responsibility");
    reveal_strlit("extraordinary");
    reveal_strlit("communication");
    reveal_strlit("opportunity");
    assert(difficulty_list(WordListDifficulty::Easy).len() == 25);
    assert(difficulty_list(WordListDifficulty::Medium).len() == 25);
    assert(difficulty_list(WordListDifficulty::Hard).len() == 25);
    assert forall|i: int| 0 <= i < 25 implies difficulty_list(WordListDifficulty::Easy)[i].len() <= 3 by {
        if i == 0 {
            assert(difficulty_list(WordListDifficulty::Easy)[0] == "the"@);
        } else if i == 1 {
            assert(difficulty_list(WordListDifficulty::Easy)[1] == "and"@);
        } else if i == 2 {
            assert(difficulty_list(WordListDifficulty::Easy)[2] == "cat"@);
        } else if i == 3 {
            assert(difficulty_list(WordListDifficulty::Easy)[3] == "dog"@);
        } else if i == 4 {
            assert(difficulty_list(WordListDifficulty::Easy)[4] == "sun"@);
        } else if i == 5 {
            assert(difficulty_list(WordListDifficulty::Easy)[5] == "run"@);
        } else if i == 6 {
            assert(difficulty_list(WordListDifficulty::Easy)[6] == "big"@);
        } else if i == 7 {
            assert(difficulty_list(WordListDifficulty::Easy)[7] == "red"@);
        } else if i == 8 {
            assert(difficulty_list(WordListDifficulty::Easy)[8] == "hat"@);
        } else if i == 9 {
            assert(difficulty_list(WordListDifficulty::Easy)[9] == "cup"@);
        } else if i == 10 {
            assert(difficulty_list(WordListDifficulty::Easy)[10] == "pen"@);
        } else if i == 11 {
            assert(difficulty_list(WordListDifficulty::Easy)[11] == "box"@);
        } else if i == 12 {
            assert(difficulty_list(WordListDifficulty::Easy)[12] == "map"@);
        } else if i == 13 {
            assert(difficulty_list(WordListDifficulty::Easy)[13] == "sit"@);
        } else if i == 14 {
            assert(difficulty_list(WordListDifficulty::Easy)[14] == "top"@);
        } else if i == 15 {
            assert(difficulty_list(WordListDifficulty::Easy)[15] == "fun"@);
        } else if i == 16 {
            assert(difficulty_list(WordListDifficulty::Easy)[16] == "bed"@);
        } else if i == 17 {
            assert(difficulty_list(WordListDifficulty::Easy)[17] == "car"@);
        } else if i == 18 {
            assert(difficulty_list(WordListDifficulty::Easy)[18] == "egg"@);
        } else if i == 19 {
            assert(difficulty_list(WordListDifficulty::Easy)[19] == "fox"@);
        } else if i == 20 {
            assert(difficulty_list(WordListDifficulty::Easy)[20] == "jam"@);
        } else if i == 21 {
            assert(difficulty_list(WordListDifficulty::Easy)[21] == "kid"@);
        } else if i == 22 {
            assert(difficulty_list(WordListDifficulty::Easy)[22] == "leg"@);
        } else if i == 23 {
            assert(difficulty_list(WordListDifficulty::Easy)[23] == "man"@);
        } else if i == 24 {
            assert(difficulty_list(WordListDifficulty::Easy)[24] == "nut"@);
        }
    }
    assert forall|i: int| 0 <= i < 25 implies difficulty_list(WordListDifficulty::Medium)[i].len() == 5 by {
        if i == 0 {
            assert(difficulty_list(WordListDifficulty::Medium)[0] == "apple"@);
        } else if i == 1 {
            assert(difficulty_list(WordListDifficulty::Medium)[1] == "river"@);
        } else if i == 2 {
            assert(difficulty_list(WordListDifficulty::Medium)[2] == "green"@);
        } else if i == 3 {
            assert(difficulty_list(WordListDifficulty::Medium)[3] == "house"@);
        } else if i == 4 {
            assert(difficulty_list(WordListDifficulty::Medium)[4] == "table"@);
        } else if i == 5 {
            assert(difficulty_list(WordListDifficulty::Medium)[5] == "water"@);
        } else if i == 6 {
            assert(difficulty_list(WordListDifficulty::Medium)[6] == "light"@);
        } else if i == 7 {
            assert(difficulty_list(WordListDifficulty::Medium)[7] == "happy"@);
        } else if i == 8 {
            assert(difficulty_list(WordListDifficulty::Medium)[8] == "chair"@);
        } else if i == 9 {
            assert(difficulty_list(WordListDifficulty::Medium)[9] == "music"@);
        } else if i == 10 {
            assert(difficulty_list(WordListDifficulty::Medium)[10] == "bread"@);
        } else if i == 11 {
            assert(difficulty_list(WordListDifficulty::Medium)[11] == "plant"@);
        } else if i == 12 {
            assert(difficulty_list(WordListDifficulty::Medium)[12] == "smile"@);
        } else if i == 13 {
            assert(difficulty_list(WordListDifficulty::Medium)[13] == "train"@);
        } else if i == 14 {
            assert(difficulty_list(WordListDifficulty::Medium)[14] == "cloud"@);
        } else if i == 15 {
            assert(difficulty_list(WordListDifficulty::Medium)[15] == "stone"@);
        } else if i == 16 {
            assert(difficulty_list(WordListDifficulty::Medium)[16] == "paper"@);
        } else if i == 17 {
            assert(difficulty_list(WordListDifficulty::Medium)[17] == "dream"@);
        } else if i == 18 {
            assert(difficulty_list(WordListDifficulty::Medium)[18] == "horse"@);
        } else if i == 19 {
            assert(difficulty_list(WordListDifficulty::Medium)[19] == "beach"@);
        } else if i == 20 {
            assert(difficulty_list(WordListDifficulty::Medium)[20] == "clock"@);
        } else if i == 21 {
            assert(difficulty_list(WordListDifficulty::Medium)[21] == "fruit"@);
        } else if i == 22 {
            assert(difficulty_list(WordListDifficulty::Medium)[22] == "money"@);
        } else if i == 23 {
            assert(difficulty_list(WordListDifficulty::Medium)[23] == "night"@);
        } else if i == 24 {
            assert(difficulty_list(WordListDifficulty::Medium)[24] == "phone"@);
        }
    }
    assert forall|i: int| 0 <= i < 25 implies difficulty_list(WordListDifficulty::Hard)[i].len() >= 9 by {
        if i == 0 {
            assert(difficulty_list(WordListDifficulty::Hard)[0] == "beautiful"@);
        } else if i == 1 {
            assert(difficulty_list(WordListDifficulty::Hard)[1] == "knowledge"@);
        } else if i == 2 {
            assert(difficulty_list(WordListDifficulty::Hard)[2] == "challenge"@);
        } else if i == 3 {
            assert(difficulty_list(WordListDifficulty::Hard)[3] == "different"@);
        } else if i == 4 {
            assert(difficulty_list(WordListDifficulty::Hard)[4] == "important"@);
        } else if i == 5 {
            assert(difficulty_list(WordListDifficulty::Hard)[5] == "structure"@);
        } else if i == 6 {
            assert(difficulty_list(WordListDifficulty::Hard)[6] == "adventure"@);
        } else if i == 7 {
            assert(difficulty_list(WordListDifficulty::Hard)[7] == "necessary"@);
        } else if i == 8 {
            assert(difficulty_list(WordListDifficulty::Hard)[8] == "community"@);
        } else if i == 9 {
            assert(difficulty_list(WordListDifficulty::Hard)[9] == "wonderful"@);
        } else if i == 10 {
            assert(difficulty_list(WordListDifficulty::Hard)[10] == "technology"@);
        } else if i == 11 {
            assert(difficulty_list(WordListDifficulty::Hard)[11] == "government"@);
        } else if i == 12 {
            assert(difficulty_list(WordListDifficulty::Hard)[12] == "experience"@);
        } else if i == 13 {
            assert(difficulty_list(WordListDifficulty::Hard)[13] == "understand"@);
        } else if i == 14 {
            assert(difficulty_list(WordListDifficulty::Hard)[14] == "particular"@);
        } else if i == 15 {
            assert(difficulty_list(WordListDifficulty::Hard)[15] == "environment"@);
        } else if i == 16 {
            assert(difficulty_list(WordListDifficulty::Hard)[16] == "development"@);
        } else if i == 17 {
            assert(difficulty_list(WordListDifficulty::Hard)[17] == "information"@);
        } else if i == 18 {
            assert(difficulty_list(WordListDifficulty::Hard)[18] == "temperature"@);
        } else if i == 19 {
            assert(difficulty_list(WordListDifficulty::Hard)[19] == "independent"@);
        } else if i == 20 {
            assert(difficulty_list(WordListDifficulty::Hard)[20] == "mathematics"@);
        } else if i == 21 {
            assert(difficulty_list(WordListDifficulty::Hard)[21] == "responsibility"@);
        } else if i == 22 {
            assert(difficulty_list(WordListDifficulty::Hard)[22] == "extraordinary"@);
        } else if i == 23 {
            assert(difficulty_list(WordListDifficulty::Hard)[23] == "communication"@);
        } else if i == 24 {
            assert(difficulty_list(WordListDifficulty::Hard)[24] == "opportunity"@);
        }
    }
}

} // verus!
