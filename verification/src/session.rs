use vstd::prelude::*;
use rand::seq::SliceRandom;
use crate::config::GameMode;
use crate::text::{push_char, pop_char, chars_of, byte_count, text_bytes};

verus! {

/// `words` could have been drawn from `list` without repetition: there is a
/// way to pick, for each word, a distinct position of `list` that holds it.
pub open spec fn drawn_without_repetition(words: Seq<String>, list: Seq<String>) -> bool {
    exists|at: Seq<int>|
        #![trigger at.len()]
        {
            &&& at.len() == words.len()
            &&& forall|i: int| 0 <= i < words.len() ==> 0 <= #[trigger] at[i] < list.len()
                && words[i]@ == list[at[i]]@
            &&& forall|i: int, j: int| 0 <= i < j < words.len() ==> #[trigger] at[i] != #[trigger] at[j]
        }
}

/// `w` is one of the words of `list`.
pub open spec fn in_list(w: String, list: Seq<String>) -> bool {
    exists|j: int| 0 <= j < list.len() && #[trigger] list[j]@ == w@
}

/// Every word of `words` is one of `list`.
pub open spec fn drawn_from(words: Seq<String>, list: Seq<String>) -> bool {
    forall|i: int| 0 <= i < words.len() ==> #[trigger] in_list(words[i], list)
}

/// The smaller of `a` and `b`.
pub open spec fn min_nat(a: nat, b: nat) -> nat {
    if a < b {
        a
    } else {
        b
    }
}

/// `SliceRandom::choose_multiple` of `rand`, on a fresh thread-local
/// generator: `amount` words of `list`, or all of them when there are fewer,
/// at distinct positions, in random order. Which words come out, and in which
/// order, is left open: that is chance.
#[verifier::external_body]
fn pick_words(list: &Vec<String>, amount: usize) -> (r: Vec<String>)
    ensures
        r@.len() == min_nat(amount as nat, list@.len()),
        drawn_without_repetition(r@, list@),
{
    list.as_slice().choose_multiple(&mut rand::thread_rng(), amount).cloned().collect()
}

proof fn lemma_drawn_from(words: Seq<String>, list: Seq<String>)
    requires
        drawn_without_repetition(words, list),
    ensures
        drawn_from(words, list),
{
    let at = choose|at: Seq<int>|
        #![trigger at.len()]
        {
            &&& at.len() == words.len()
            &&& forall|i: int| 0 <= i < words.len() ==> 0 <= #[trigger] at[i] < list.len()
                && words[i]@ == list[at[i]]@
            &&& forall|i: int, j: int| 0 <= i < j < words.len() ==> #[trigger] at[i] != #[trigger] at[j]
        };
    assert forall|i: int| 0 <= i < words.len() implies #[trigger] in_list(words[i], list) by {
        assert(0 <= at[i] < list.len() && words[i]@ == list[at[i]]@);
    }
}

/// A key press, as far as a typing test tells keys apart.
#[derive(Debug, Clone, Copy, PartialEq, Eq)]
pub enum SessionKey {
    Space,
    Char(char),
    Backspace,
    Tab,
    Esc,
    Other,
}

/// What the test loop does after a key press.
#[derive(Debug, Clone, Copy, PartialEq, Eq, Structural)]
pub enum Reaction {
    /// Go on with the test.
    Continue,
    /// The test started over with new words: the clock and the speed shown
    /// are reset.
    Restart,
    /// The test is over: show and save the result.
    Finish,
}

/// One typing test: the words to type, what was typed for each, the word
/// being typed, and whether the clock runs (it starts with the first
/// character typed).
#[derive(Debug)]
pub struct Session {
    pub mode: GameMode,
    pub num_words: usize,
    pub time_limit: u64,
    pub restart_allowed: bool,
    pub words: Vec<String>,
    pub typed: Vec<String>,
    pub current: usize,
    pub started: bool,
}

/// Every word has its typed text, and the word being typed is one of them
/// (or there are no words at all).
pub open spec fn session_wf(s: Session) -> bool {
    &&& s.typed@.len() == s.words@.len()
    &&& (s.current < s.words@.len() || (s.current == 0 && s.words@.len() == 0))
}

/// All typed texts are empty.
pub open spec fn nothing_typed(typed: Seq<String>) -> bool {
    forall|i: int| 0 <= i < typed.len() ==> (#[trigger] typed[i])@.len() == 0
}

/// `n` empty strings.
fn empty_texts(n: usize) -> (v: Vec<String>)
    ensures
        v@.len() == n,
        nothing_typed(v@),
{
    let mut v: Vec<String> = Vec::new();
    while v.len() < n
        invariant
            v@.len() <= n,
            nothing_typed(v@),
        decreases n - v@.len(),
    {
        v.push(String::new());
    }
    v
}

/// The number of shuffled passes over the word list that a timed test
/// starts with.
pub const TIME_MODE_PASSES: usize = 10;

/// The number of words a timed test draws when fewer than
/// `TIME_MODE_LOW_WATER` remain after the current one.
pub const TIME_MODE_REFILL: usize = 20;

/// See `TIME_MODE_REFILL`.
pub const TIME_MODE_LOW_WATER: usize = 10;

/// A new test with words drawn from `list`: `num_words` of them (fewer if the
/// list is shorter) for the words mode; ten shuffled passes over the whole
/// list for the timed mode. Nothing is typed yet and the clock stands.
pub fn start_session(
    mode: GameMode,
    num_words: usize,
    time_limit: u64,
    restart_allowed: bool,
    list: &Vec<String>,
) -> (s: Session)
    requires
        mode == GameMode::Time ==> TIME_MODE_PASSES * list@.len() <= usize::MAX,
    ensures
        session_wf(s),
        s.mode == mode,
        s.num_words == num_words,
        s.time_limit == time_limit,
        s.restart_allowed == restart_allowed,
        s.words@.len() == match mode {
            GameMode::Words => min_nat(num_words as nat, list@.len()),
            GameMode::Time => (TIME_MODE_PASSES * list@.len()) as nat,
        },
        mode == GameMode::Words ==> drawn_without_repetition(s.words@, list@),
        mode == GameMode::Time ==> forall|p: int|
            0 <= p < TIME_MODE_PASSES ==> #[trigger] drawn_without_repetition(
                s.words@.subrange(p * list@.len(), (p + 1) * list@.len()),
                list@,
            ),
        drawn_from(s.words@, list@),
        nothing_typed(s.typed@),
        s.current == 0,
        !s.started,
{
    let words = match mode {
        GameMode::Words => {
            let w = pick_words(list, num_words);
            proof {
                lemma_drawn_from(w@, list@);
            }
            w
        },
        GameMode::Time => {
            let mut pool: Vec<String> = Vec::new();
            let mut pass: usize = 0;
            while pass < TIME_MODE_PASSES
                invariant
                    pass <= TIME_MODE_PASSES,
                    TIME_MODE_PASSES * list@.len() <= usize::MAX,
                    pool@.len() == pass * list@.len(),
                    drawn_from(pool@, list@),
                    forall|p: int|
                        0 <= p < pass ==> #[trigger] drawn_without_repetition(
                            pool@.subrange(p * list@.len(), (p + 1) * list@.len()),
                            list@,
                        ),
                decreases TIME_MODE_PASSES - pass,
            {
                let mut more = pick_words(list, list.len());
                proof {
                    lemma_drawn_from(more@, list@);
                    assert((pass + 1) * list@.len() == pass * list@.len() + list@.len()) by (nonlinear_arith);
                    assert((pass + 1) * list@.len() <= TIME_MODE_PASSES * list@.len()) by (nonlinear_arith)
                        requires pass + 1 <= TIME_MODE_PASSES;
                }
                let ghost before = pool@;
                let ghost added = more@;
                pool.append(&mut more);
                proof {
                    let n = list@.len() as int;
                    assert forall|p: int| 0 <= p < pass + 1 implies #[trigger] drawn_without_repetition(
                        pool@.subrange(p * n, (p + 1) * n),
                        list@,
                    ) by {
                        assert(p * n + n == (p + 1) * n) by (nonlinear_arith);
                        if p < pass {
                            assert((p + 1) * n <= pass * n) by (nonlinear_arith)
                                requires p + 1 <= pass, n >= 0;
                            assert(pool@.subrange(p * n, (p + 1) * n) =~= before.subrange(p * n, (p + 1) * n));
                        } else {
                            assert(pool@.subrange(p * n, (p + 1) * n) =~= added);
                        }
                    }
                    assert forall|i: int| 0 <= i < pool@.len() implies #[trigger] in_list(pool@[i], list@) by {
                        if i < before.len() {
                            assert(pool@[i] == before[i]);
                            assert(in_list(before[i], list@));
                        } else {
                            assert(pool@[i] == added[i - before.len()]);
                            assert(in_list(added[i - before.len()], list@));
                        }
                    }
                }
                pass = pass + 1;
            }
            pool
        },
    };
    let typed = empty_texts(words.len());
    Session {
        mode,
        num_words,
        time_limit,
        restart_allowed,
        words,
        typed,
        current: 0,
        started: false,
    }
}

/// The settings of the test are those of `before`.
pub open spec fn same_settings(before: Session, after: Session) -> bool {
    &&& after.mode == before.mode
    &&& after.num_words == before.num_words
    &&& after.time_limit == before.time_limit
    &&& after.restart_allowed == before.restart_allowed
}

/// Whether `key` ends the test once handled: the escape key, or, in the
/// words mode, the last word typed exactly.
pub open spec fn finishes(before: Session, after: Session, key: SessionKey) -> bool {
    match key {
        SessionKey::Esc => true,
        SessionKey::Char(_) => before.mode == GameMode::Words && before.current + 1 == before.num_words
            && after.typed@[before.current as int]@ == before.words@[before.current as int]@,
        _ => false,
    }
}

/// `after` is the test `before` after `key`, new words being drawn from
/// `list`:
/// - space moves to the next word, if there is one; in the timed mode, when
///   fewer than ten words are left after it, twenty more (or the whole list,
///   if shorter) are drawn and appended;
/// - a character is added to the current word's text and starts the clock;
/// - backspace removes the last character of the current word's text;
/// - tab, when restarting is allowed, starts over with `num_words` new words
///   and nothing typed, the clock standing;
/// - other keys change nothing.
pub open spec fn session_stepped(before: Session, after: Session, key: SessionKey, list: Seq<String>) -> bool {
    let cur = before.current as int;
    &&& same_settings(before, after)
    &&& match key {
        SessionKey::Space => {
            &&& after.started == before.started
            &&& if cur + 1 < before.words@.len() {
                &&& after.current == cur + 1
                &&& if before.mode == GameMode::Time && before.words@.len() - (cur + 1) < TIME_MODE_LOW_WATER {
                    let added = after.words@.len() - before.words@.len();
                    &&& added == min_nat(TIME_MODE_REFILL as nat, list.len())
                    &&& after.words@.subrange(0, before.words@.len() as int) == before.words@
                    &&& drawn_without_repetition(after.words@.subrange(before.words@.len() as int, after.words@.len() as int), list)
                    &&& after.typed@.len() == after.words@.len()
                    &&& after.typed@.subrange(0, before.typed@.len() as int) == before.typed@
                    &&& nothing_typed(after.typed@.subrange(before.typed@.len() as int, after.typed@.len() as int))
                } else {
                    &&& after.words == before.words
                    &&& after.typed == before.typed
                }
            } else {
                &&& after.current == before.current
                &&& after.words == before.words
                &&& after.typed == before.typed
            }
        },
        SessionKey::Char(c) => {
            &&& after.started
            &&& after.current == before.current
            &&& after.words == before.words
            &&& after.typed@.len() == before.typed@.len()
            &&& after.typed@[cur]@ == before.typed@[cur]@.push(c)
            &&& forall|i: int| 0 <= i < after.typed@.len() && i != cur ==> after.typed@[i] == before.typed@[i]
        },
        SessionKey::Backspace => {
            &&& after.started == before.started
            &&& after.current == before.current
            &&& after.words == before.words
            &&& after.typed@.len() == before.typed@.len()
            &&& after.typed@[cur]@ == if before.typed@[cur]@.len() == 0 {
                before.typed@[cur]@
            } else {
                before.typed@[cur]@.drop_last()
            }
            &&& forall|i: int| 0 <= i < after.typed@.len() && i != cur ==> after.typed@[i] == before.typed@[i]
        },
        SessionKey::Tab => if before.restart_allowed {
            &&& after.words@.len() == min_nat(before.num_words as nat, list.len())
            &&& drawn_without_repetition(after.words@, list)
            &&& after.typed@.len() == after.words@.len()
            &&& nothing_typed(after.typed@)
            &&& after.current == 0
            &&& !after.started
        } else {
            &&& after.started == before.started
            &&& after.current == before.current
            &&& after.words == before.words
            &&& after.typed == before.typed
        },
        _ => {
            &&& after.started == before.started
            &&& after.current == before.current
            &&& after.words == before.words
            &&& after.typed == before.typed
        },
    }
}

/// What a key press asks of a test: a word to type, a word count in the
/// words mode for a character (the last word is found as `num_words - 1`),
/// and room in a `Vec` for more words.
pub open spec fn key_allowed(s: Session, key: SessionKey) -> bool {
    &&& session_wf(s)
    &&& s.words@.len() > 0
    &&& (key is Char && s.mode == GameMode::Words) ==> s.num_words > 0
    &&& key == SessionKey::Space ==> s.words@.len() + TIME_MODE_REFILL <= usize::MAX
}

impl Session {
    /// Handles one key press, drawing new words from `list` when needed.
    pub fn handle_key(&mut self, key: SessionKey, list: &Vec<String>) -> (reaction: Reaction)
        requires
            key_allowed(*old(self), key),
        ensures
            session_wf(*final(self)),
            session_stepped(*old(self), *final(self), key, list@),
            reaction == if finishes(*old(self), *final(self), key) {
                Reaction::Finish
            } else if key == SessionKey::Tab && old(self).restart_allowed {
                Reaction::Restart
            } else {
                Reaction::Continue
            },
    {
        let ghost before = *self;
        match key {
            SessionKey::Space => {
                if self.current + 1 < self.words.len() {
                    self.current = self.current + 1;
                    if self.mode == GameMode::Time && self.words.len() - self.current < TIME_MODE_LOW_WATER {
                        let mut more = pick_words(list, TIME_MODE_REFILL);
                        let count = more.len();
                        let ghost added = more@;
                        self.words.append(&mut more);
                        let mut fresh = empty_texts(count);
                        let ghost fresh_v = fresh@;
                        self.typed.append(&mut fresh);
                        proof {
                            assert(self.words@.subrange(0, before.words@.len() as int) =~= before.words@);
                            assert(self.words@.subrange(before.words@.len() as int, self.words@.len() as int) =~= added);
                            assert(self.typed@.subrange(0, before.typed@.len() as int) =~= before.typed@);
                            assert(self.typed@.subrange(before.typed@.len() as int, self.typed@.len() as int) =~= fresh_v);
                        }
                    }
                }
                Reaction::Continue
            },
            SessionKey::Char(c) => {
                if !self.started {
                    self.started = true;
                }
                let cur = self.current;
                let mut t = self.typed.remove(cur);
                push_char(&mut t, c);
                self.typed.insert(cur, t);
                proof {
                    assert forall|i: int| 0 <= i < self.typed@.len() && i != cur implies self.typed@[i] == before.typed@[i] by {
                        if i < cur {
                        } else {
                        }
                    }
                }
                if self.mode == GameMode::Words && cur == self.num_words - 1 && self.typed[cur] == self.words[cur] {
                    Reaction::Finish
                } else {
                    Reaction::Continue
                }
            },
            SessionKey::Backspace => {
                let cur = self.current;
                let mut t = self.typed.remove(cur);
                let _ = pop_char(&mut t);
                self.typed.insert(cur, t);
                Reaction::Continue
            },
            SessionKey::Tab => {
                if self.restart_allowed {
                    let words = pick_words(list, self.num_words);
                    let typed = empty_texts(words.len());
                    self.words = words;
                    self.typed = typed;
                    self.current = 0;
                    self.started = false;
                    Reaction::Restart
                } else {
                    Reaction::Continue
                }
            },
            SessionKey::Esc => Reaction::Finish,
            SessionKey::Other => Reaction::Continue,
        }
    }
}

/// The number of positions before `n` at which `t` and `w` hold the same
/// character.
pub open spec fn matches_before(t: Seq<char>, w: Seq<char>, n: int) -> nat
    decreases n,
{
    if n <= 0 {
        0
    } else {
        matches_before(t, w, n - 1) + if t[n - 1] == w[n - 1] {
            1nat
        } else {
            0nat
        }
    }
}

/// The number of positions both `t` and `w` have.
pub open spec fn common_len(t: Seq<char>, w: Seq<char>) -> nat {
    min_nat(t.len(), w.len())
}

/// The characters of the typed text `t` that match the word `w`, position by
/// position.
pub open spec fn correct_chars(t: Seq<char>, w: Seq<char>) -> nat {
    matches_before(t, w, common_len(t, w) as int)
}

/// The bytes by which the typed text `t` is longer than the word `w`.
pub open spec fn extra_bytes(t: Seq<char>, w: Seq<char>) -> nat {
    if byte_count(t) > byte_count(w) {
        (byte_count(t) - byte_count(w)) as nat
    } else {
        0
    }
}

/// The errors in the typed text `t` of the word `w`: the positions where
/// they differ, and the bytes typed beyond the word's length.
pub open spec fn wrong_chars(t: Seq<char>, w: Seq<char>) -> nat {
    (common_len(t, w) - correct_chars(t, w)) as nat + extra_bytes(t, w)
}

/// The correct characters over the first `n` words.
pub open spec fn correct_sum(typed: Seq<String>, words: Seq<String>, n: int) -> nat
    decreases n,
{
    if n <= 0 {
        0
    } else {
        correct_sum(typed, words, n - 1) + correct_chars(typed[n - 1]@, words[n - 1]@)
    }
}

/// The errors over the first `n` words.
pub open spec fn wrong_sum(typed: Seq<String>, words: Seq<String>, n: int) -> nat
    decreases n,
{
    if n <= 0 {
        0
    } else {
        wrong_sum(typed, words, n - 1) + wrong_chars(typed[n - 1]@, words[n - 1]@)
    }
}

proof fn lemma_matches_bounded(t: Seq<char>, w: Seq<char>, n: int)
    requires
        n >= 0,
    ensures
        matches_before(t, w, n) <= n,
    decreases n,
{
    if n > 0 {
        lemma_matches_bounded(t, w, n - 1);
    }
}

/// The characters of `typed` that match `word`, position by position.
pub fn count_correct(typed: &String, word: &String) -> (n: usize)
    ensures
        n == correct_chars(typed@, word@),
{
    let t = chars_of(typed.as_str());
    let w = chars_of(word.as_str());
    let m = if t.len() < w.len() { t.len() } else { w.len() };
    let mut n: usize = 0;
    let mut j: usize = 0;
    while j < m
        invariant
            t@ == typed@,
            w@ == word@,
            m == common_len(typed@, word@),
            j <= m,
            n == matches_before(typed@, word@, j as int),
            n <= j,
        decreases m - j,
    {
        if t[j] == w[j] {
            n = n + 1;
        }
        j = j + 1;
    }
    n
}

/// The errors of `typed` against `word`.
fn count_wrong(typed: &String, word: &String) -> (n: Option<usize>)
    ensures
        match n {
            Some(v) => v == wrong_chars(typed@, word@),
            None => wrong_chars(typed@, word@) > usize::MAX,
        },
{
    let c = count_correct(typed, word);
    let tl = chars_of(typed.as_str()).len();
    let wl = chars_of(word.as_str()).len();
    let m = if tl < wl { tl } else { wl };
    proof {
        lemma_matches_bounded(typed@, word@, m as int);
    }
    let mismatched = m - c;
    let tb = text_bytes(typed);
    let wb = text_bytes(word);
    let extra = if tb > wb { tb - wb } else { 0 };
    mismatched.checked_add(extra)
}

impl Session {
    /// The characters typed so far that match their words, over all words:
    /// what the speed shown during the test counts. `None` when the count
    /// does not fit in a `usize`.
    pub fn live_correct(&self) -> (n: Option<usize>)
        ensures
            match n {
                Some(v) => v == correct_sum(self.typed@, self.words@, min_nat(self.typed@.len(), self.words@.len()) as int),
                None => correct_sum(self.typed@, self.words@, min_nat(self.typed@.len(), self.words@.len()) as int) > usize::MAX,
            },
    {
        let upto = if self.typed.len() < self.words.len() { self.typed.len() } else { self.words.len() };
        self.tally_correct(upto)
    }

    fn tally_correct(&self, upto: usize) -> (n: Option<usize>)
        requires
            upto <= self.typed@.len(),
            upto <= self.words@.len(),
        ensures
            match n {
                Some(v) => v == correct_sum(self.typed@, self.words@, upto as int),
                None => correct_sum(self.typed@, self.words@, upto as int) > usize::MAX,
            },
    {
        let mut total: usize = 0;
        let mut i: usize = 0;
        while i < upto
            invariant
                upto <= self.typed@.len(),
                upto <= self.words@.len(),
                i <= upto,
                total == correct_sum(self.typed@, self.words@, i as int),
            decreases upto - i,
        {
            let c = count_correct(&self.typed[i], &self.words[i]);
            match total.checked_add(c) {
                Some(t) => {
                    total = t;
                },
                None => {
                    proof {
                        lemma_sums_grow(self.typed@, self.words@, i as int + 1, upto as int);
                    }
                    return None;
                },
            }
            i = i + 1;
        }
        Some(total)
    }

    /// The correct characters and the errors over the words up to and
    /// including the current one: the result of the test. `None` when either
    /// count does not fit in a `usize`.
    pub fn final_tally(&self) -> (r: Option<(usize, usize)>)
        requires
            session_wf(*self),
        ensures
            ({
                let n = min_nat(self.current as nat + 1, self.words@.len()) as int;
                match r {
                    Some((c, w)) => c == correct_sum(self.typed@, self.words@, n) && w == wrong_sum(
                        self.typed@,
                        self.words@,
                        n,
                    ),
                    None => correct_sum(self.typed@, self.words@, n) > usize::MAX || wrong_sum(
                        self.typed@,
                        self.words@,
                        n,
                    ) > usize::MAX,
                }
            }),
    {
        let upto = if self.current < self.words.len() { self.current + 1 } else { self.words.len() };
        let mut good: usize = 0;
        let mut bad: usize = 0;
        let mut i: usize = 0;
        while i < upto
            invariant
                upto <= self.typed@.len(),
                upto <= self.words@.len(),
                upto == min_nat(self.current as nat + 1, self.words@.len()),
                i <= upto,
                good == correct_sum(self.typed@, self.words@, i as int),
                bad == wrong_sum(self.typed@, self.words@, i as int),
            decreases upto - i,
        {
            let c = count_correct(&self.typed[i], &self.words[i]);
            let w = count_wrong(&self.typed[i], &self.words[i]);
            proof {
                lemma_sums_grow(self.typed@, self.words@, i as int + 1, upto as int);
            }
            match (good.checked_add(c), w) {
                (Some(g), Some(wv)) => match bad.checked_add(wv) {
                    Some(b) => {
                        good = g;
                        bad = b;
                    },
                    None => {
                        return None;
                    },
                },
                _ => {
                    return None;
                },
            }
            i = i + 1;
        }
        Some((good, bad))
    }
}

/// What the result screen does with a key.
#[derive(Debug, Clone, Copy, PartialEq, Eq, Structural)]
pub enum AfterTest {
    /// Start another test.
    Again,
    /// Stop the program.
    Stop,
    /// Keep showing the result.
    Wait,
}

/// On the result screen, tab starts another test, escape stops, other keys
/// are ignored.
pub fn after_test(key: SessionKey) -> (a: AfterTest)
    ensures
        a == match key {
            SessionKey::Tab => AfterTest::Again,
            SessionKey::Esc => AfterTest::Stop,
            _ => AfterTest::Wait,
        },
{
    match key {
        SessionKey::Tab => AfterTest::Again,
        SessionKey::Esc => AfterTest::Stop,
        _ => AfterTest::Wait,
    }
}

/// The test is over: in the timed mode when the clock has run for the time
/// limit, in the words mode when the current word is past the word count.
/// `elapsed` is the number of whole seconds the clock has run, if it runs.
pub open spec fn over(s: Session, elapsed: Option<u64>) -> bool {
    match s.mode {
        GameMode::Time => match elapsed {
            Some(e) => e >= s.time_limit,
            None => false,
        },
        GameMode::Words => s.current >= s.num_words,
    }
}

impl Session {
    /// Whether the test is over, the clock having run `elapsed` whole seconds
    /// if it runs.
    pub fn is_over(&self, elapsed: Option<u64>) -> (b: bool)
        ensures
            b == over(*self, elapsed),
    {
        match self.mode {
            GameMode::Time => match elapsed {
                Some(e) => e >= self.time_limit,
                None => false,
            },
            GameMode::Words => self.current >= self.num_words,
        }
    }

    /// Whether the current word is past the last word.
    pub fn out_of_words(&self) -> (b: bool)
        ensures
            b == (self.current >= self.words@.len()),
    {
        self.current >= self.words.len()
    }

    /// The seconds left in a timed test: the time limit less the seconds the
    /// clock has run, if it runs, and never below zero.
    pub fn remaining_secs(&self, elapsed: Option<u64>) -> (r: u64)
        ensures
            r == match elapsed {
                Some(e) => if e < self.time_limit {
                    (self.time_limit - e) as u64
                } else {
                    0
                },
                None => self.time_limit,
            },
    {
        let e = match elapsed {
            Some(e) => e,
            None => 0,
        };
        self.time_limit.saturating_sub(e)
    }
}

/// The sums over more words are at least those over fewer.
proof fn lemma_sums_grow(typed: Seq<String>, words: Seq<String>, a: int, b: int)
    requires
        0 <= a <= b,
    ensures
        correct_sum(typed, words, a) <= correct_sum(typed, words, b),
        wrong_sum(typed, words, a) <= wrong_sum(typed, words, b),
    decreases b - a,
{
    if a < b {
        lemma_sums_grow(typed, words, a, b - 1);
    }
}

/// Law: backspace takes back the character just typed: the texts typed for
/// the words are as they were, and so are the words and the current word.
pub proof fn law_backspace_undoes_char(a: Session, b: Session, c: Session, ch: char, list: Seq<String>)
    requires
        session_wf(a),
        a.words@.len() > 0,
        session_stepped(a, b, SessionKey::Char(ch), list),
        session_stepped(b, c, SessionKey::Backspace, list),
    ensures
        c.words == a.words,
        c.current == a.current,
        c.typed@.len() == a.typed@.len(),
        forall|i: int| 0 <= i < c.typed@.len() ==> (#[trigger] c.typed@[i])@ == a.typed@[i]@,
{
    let cur = a.current as int;
    assert(b.typed@[cur]@.drop_last() =~= a.typed@[cur]@);
}

/// Law: space moves on by one word at most, never back, and only while a
/// next word exists; the current word is always one of the words.
pub proof fn law_space_moves_on(a: Session, b: Session, list: Seq<String>)
    requires
        session_wf(a),
        a.words@.len() > 0,
        session_stepped(a, b, SessionKey::Space, list),
    ensures
        b.current == a.current || b.current == a.current + 1,
        b.current < b.words@.len(),
        b.words@.len() >= a.words@.len(),
{
    if a.current + 1 < a.words@.len() && a.mode == GameMode::Time && a.words@.len() - (a.current + 1)
        < TIME_MODE_LOW_WATER {
        assert(b.words@.subrange(0, a.words@.len() as int).len() == a.words@.len());
    }
}

/// Law: in a timed test whose list has at least ten words, a space that
/// moves on leaves at least ten words to type from the current one on, so
/// the words never run out.
pub proof fn law_timed_test_keeps_words_ahead(a: Session, b: Session, list: Seq<String>)
    requires
        session_wf(a),
        a.words@.len() > 0,
        a.mode == GameMode::Time,
        list.len() >= TIME_MODE_LOW_WATER,
        a.current + 1 < a.words@.len(),
        session_stepped(a, b, SessionKey::Space, list),
    ensures
        b.words@.len() - b.current >= TIME_MODE_LOW_WATER,
{
    if a.words@.len() - (a.current + 1) < TIME_MODE_LOW_WATER {
        assert(b.words@.subrange(0, a.words@.len() as int).len() == a.words@.len());
    }
}

/// Law: the correct characters of a word never outnumber the positions the
/// typed text and the word share, so a test's correct characters never
/// outnumber the characters typed.
pub proof fn law_correct_within_typed(t: Seq<char>, w: Seq<char>)
    ensures
        correct_chars(t, w) <= common_len(t, w),
        correct_chars(t, w) <= t.len(),
        common_len(t, w) - correct_chars(t, w) <= wrong_chars(t, w),
{
    lemma_matches_bounded(t, w, common_len(t, w) as int);
}

/// Law: a text typed exactly as its word has every character correct and
/// no error.
pub proof fn law_exact_text_scores_fully(w: Seq<char>)
    ensures
        correct_chars(w, w) == w.len(),
        wrong_chars(w, w) == 0,
{
    lemma_matches_all(w, w.len() as int);
}

proof fn lemma_matches_all(w: Seq<char>, n: int)
    requires
        0 <= n <= w.len(),
    ensures
        matches_before(w, w, n) == n,
    decreases n,
{
    if n > 0 {
        lemma_matches_all(w, n - 1);
    }
}

/// Law: a character key ends a test exactly when, in the words mode, it
/// completes the last word as that word is written: the text typed so far
/// with the new character equals the word. Any other text, even one of the
/// same length, lets the test go on (and can still be corrected); the
/// character is kept either way.
pub proof fn law_char_finishes_only_on_exact_last_word(
    a: Session,
    b: Session,
    c: char,
    list: Seq<String>,
)
    requires
        session_wf(a),
        a.words@.len() > 0,
        session_stepped(a, b, SessionKey::Char(c), list),
    ensures
        finishes(a, b, SessionKey::Char(c)) <==> (a.mode == GameMode::Words && a.current + 1
            == a.num_words && a.typed@[a.current as int]@.push(c) == a.words@[a.current as int]@),
        a.typed@[a.current as int]@.push(c) != a.words@[a.current as int]@ ==> !finishes(
            a,
            b,
            SessionKey::Char(c),
        ),
        b.typed@[a.current as int]@ == a.typed@[a.current as int]@.push(c),
{
}

/// Law: every byte typed beyond the length of its word is an error, whatever
/// the characters before it; and every shared position is either correct or
/// an error.
pub proof fn law_extra_bytes_are_errors(t: Seq<char>, w: Seq<char>)
    ensures
        byte_count(t) > byte_count(w) ==> wrong_chars(t, w) >= byte_count(t) - byte_count(w),
        correct_chars(t, w) + wrong_chars(t, w) >= common_len(t, w),
        byte_count(t) <= byte_count(w) ==> correct_chars(t, w) + wrong_chars(t, w) == common_len(t, w),
{
    lemma_matches_bounded(t, w, common_len(t, w) as int);
}

/// Law: a typed text that differs from its word at a shared position has an
/// error, and one that matches the word exactly has none.
pub proof fn law_mismatch_is_an_error(t: Seq<char>, w: Seq<char>, j: int)
    requires
        0 <= j < t.len(),
        j < w.len(),
        t[j] != w[j],
    ensures
        wrong_chars(t, w) >= 1,
        correct_chars(t, w) < common_len(t, w),
{
    lemma_matches_miss(t, w, common_len(t, w) as int, j);
}

proof fn lemma_matches_miss(t: Seq<char>, w: Seq<char>, n: int, j: int)
    requires
        0 <= j < n,
        j < t.len(),
        j < w.len(),
        t[j] != w[j],
    ensures
        matches_before(t, w, n) < n,
    decreases n,
{
    if n - 1 == j {
        lemma_matches_bounded(t, w, n - 1);
    } else {
        lemma_matches_miss(t, w, n - 1, j);
    }
}

} // verus!
