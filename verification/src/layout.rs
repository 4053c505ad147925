use vstd::prelude::*;
use crate::text::{byte_count, text_bytes, chars_of};

verus! {

/// Where a word of width `len` goes when the previous one left off at
/// `(x, y)`: on the same line if it ends within `limit`, else at the start
/// `x0` of the line `step` rows below.
pub open spec fn place(x: int, y: int, len: int, x0: int, limit: int, step: int) -> (int, int) {
    if x + len > limit {
        (x0, y + step)
    } else {
        (x, y)
    }
}

/// Where the text goes on after the first `k` words, each followed by one
/// space, starting at `(x0, y0)`.
pub open spec fn flow(lens: Seq<u16>, x0: int, limit: int, step: int, y0: int, k: int) -> (int, int)
    decreases k,
{
    if k <= 0 {
        (x0, y0)
    } else {
        let p = flow(lens, x0, limit, step, y0, k - 1);
        let q = place(p.0, p.1, lens[k - 1] as int, x0, limit, step);
        (q.0 + lens[k - 1] + 1, q.1)
    }
}

/// Where word `i` is drawn.
pub open spec fn placed(lens: Seq<u16>, x0: int, limit: int, step: int, y0: int, i: int) -> (int, int) {
    let p = flow(lens, x0, limit, step, y0, i);
    place(p.0, p.1, lens[i] as int, x0, limit, step)
}

/// Placing the first `k` words keeps every sum the drawing computes within
/// `u16`: the end of each word, the row below when it wraps, and where the
/// text goes on.
pub open spec fn flow_fits(lens: Seq<u16>, x0: int, limit: int, step: int, y0: int, k: int) -> bool
    decreases k,
{
    if k <= 0 {
        true
    } else {
        let p = flow(lens, x0, limit, step, y0, k - 1);
        let len = lens[k - 1] as int;
        &&& flow_fits(lens, x0, limit, step, y0, k - 1)
        &&& p.0 + len <= u16::MAX
        &&& p.0 + len > limit ==> p.1 + step <= u16::MAX
        &&& place(p.0, p.1, len, x0, limit, step).0 + len + 1 <= u16::MAX
    }
}

proof fn lemma_flow_fits_prefix(lens: Seq<u16>, x0: int, limit: int, step: int, y0: int, a: int, b: int)
    requires
        0 <= a <= b,
        flow_fits(lens, x0, limit, step, y0, b),
    ensures
        flow_fits(lens, x0, limit, step, y0, a),
    decreases b - a,
{
    if a < b {
        lemma_flow_fits_prefix(lens, x0, limit, step, y0, a, b - 1);
    }
}

/// The placement of words on the screen.
#[derive(Debug)]
pub struct Flow {
    /// Where each word starts.
    pub placed: Vec<(u16, u16)>,
    /// Where the text goes on after the last word.
    pub end: (u16, u16),
}

/// Places the first `count` words of widths `lens`, starting at `(x0, y0)`:
/// a word that would end beyond `limit` starts a new line `step` rows
/// below, at `x0`; each word is followed by a space. `None` when a sum
/// leaves `u16`.
pub fn flow_words(lens: &Vec<u16>, x0: u16, limit: u16, step: u16, y0: u16, count: usize) -> (r: Option<Flow>)
    requires
        count <= lens@.len(),
    ensures
        match r {
            Some(f) => {
                &&& flow_fits(lens@, x0 as int, limit as int, step as int, y0 as int, count as int)
                &&& f.placed@.len() == count
                &&& forall|i: int| 0 <= i < count ==> {
                    let p = #[trigger] f.placed@[i];
                    (p.0 as int, p.1 as int) == placed(lens@, x0 as int, limit as int, step as int, y0 as int, i)
                }
                &&& (f.end.0 as int, f.end.1 as int) == flow(lens@, x0 as int, limit as int, step as int, y0 as int, count as int)
            },
            None => !flow_fits(lens@, x0 as int, limit as int, step as int, y0 as int, count as int),
        },
{
    let ghost gx = x0 as int;
    let ghost gl = limit as int;
    let ghost gs = step as int;
    let ghost gy = y0 as int;
    let mut x: u16 = x0;
    let mut y: u16 = y0;
    let mut out: Vec<(u16, u16)> = Vec::new();
    let mut k: usize = 0;
    while k < count
        invariant
            gx == x0 as int,
            gl == limit as int,
            gs == step as int,
            gy == y0 as int,
            count <= lens@.len(),
            k <= count,
            flow_fits(lens@, gx, gl, gs, gy, k as int),
            (x as int, y as int) == flow(lens@, gx, gl, gs, gy, k as int),
            out@.len() == k,
            forall|i: int| 0 <= i < k ==> {
                let p = #[trigger] out@[i];
                (p.0 as int, p.1 as int) == placed(lens@, gx, gl, gs, gy, i)
            },
        decreases count - k,
    {
        let len = lens[k];
        if x as u32 + len as u32 > 65535 {
            proof {
                let kk = k as int + 1;
                assert(kk - 1 == k as int);
                assert(!flow_fits(lens@, gx, gl, gs, gy, kk));
                if flow_fits(lens@, gx, gl, gs, gy, count as int) {
                    lemma_flow_fits_prefix(lens@, gx, gl, gs, gy, kk, count as int);
                }
            }
            return None;
        }
        let (px, py) = if x + len > limit {
            if y as u32 + step as u32 > 65535 {
                proof {
                    let kk = k as int + 1;
                    assert(kk - 1 == k as int);
                    assert(!flow_fits(lens@, gx, gl, gs, gy, kk));
                    if flow_fits(lens@, gx, gl, gs, gy, count as int) {
                        lemma_flow_fits_prefix(lens@, gx, gl, gs, gy, k + 1, count as int);
                    }
                }
                return None;
            }
            (x0, y + step)
        } else {
            (x, y)
        };
        if px as u32 + len as u32 + 1 > 65535 {
            proof {
                let kk = k as int + 1;
                assert(kk - 1 == k as int);
                assert(!flow_fits(lens@, gx, gl, gs, gy, kk));
                if flow_fits(lens@, gx, gl, gs, gy, count as int) {
                    lemma_flow_fits_prefix(lens@, gx, gl, gs, gy, k + 1, count as int);
                }
            }
            return None;
        }
        out.push((px, py));
        x = px + len + 1;
        y = py;
        k = k + 1;
    }
    Some(Flow { placed: out, end: (x, y) })
}

/// The widths the layout gives words: their lengths in bytes, taken as `u16`.
pub fn word_widths(words: &Vec<String>) -> (lens: Vec<u16>)
    ensures
        lens@.len() == words@.len(),
        forall|i: int| 0 <= i < words@.len() ==> #[trigger] lens@[i] == byte_count(words@[i]@) as u16,
{
    let mut lens: Vec<u16> = Vec::new();
    let mut i: usize = 0;
    while i < words.len()
        invariant
            i <= words@.len(),
            lens@.len() == i,
            forall|k: int| 0 <= k < i ==> #[trigger] lens@[k] == byte_count(words@[k]@) as u16,
        decreases words@.len() - i,
    {
        let b = text_bytes(&words[i]);
        lens.push(b as u16);
        i = i + 1;
    }
    lens
}

/// The total of the byte lengths of the first `n` words.
pub open spec fn bytes_sum(words: Seq<String>, n: int) -> int
    decreases n,
{
    if n <= 0 {
        0
    } else {
        bytes_sum(words, n - 1) + byte_count(words[n - 1]@)
    }
}

/// The length in bytes of the words joined by single spaces.
pub open spec fn joined_len(words: Seq<String>) -> int {
    if words.len() == 0 {
        0
    } else {
        bytes_sum(words, words.len() as int) + words.len() - 1
    }
}

/// Where the default layout puts the text: centred across the width (as a
/// single line would be), half-way down, the speed two rows above.
#[derive(Debug, Clone, Copy, PartialEq, Eq, Structural)]
pub struct DefaultFrame {
    pub start_x: u16,
    pub start_y: u16,
    pub bar_y: u16,
}

proof fn lemma_bytes_sum_grows(words: Seq<String>, a: int, b: int)
    requires
        0 <= a <= b,
    ensures
        bytes_sum(words, a) <= bytes_sum(words, b),
    decreases b - a,
{
    if a < b {
        lemma_bytes_sum_grows(words, a, b - 1);
    }
}

/// The frame of the default layout for `words` on a `width` by `height`
/// terminal: the text starts `(width - w) / 2` columns in (none when it is
/// wider), `w` being its length in bytes taken as a `u16`, at row
/// `height / 2`, the speed at the row two above. `None` when there are no
/// two rows above, or the length does not fit in a `usize`.
pub fn default_frame(width: u16, height: u16, words: &Vec<String>) -> (r: Option<DefaultFrame>)
    ensures
        match r {
            Some(f) => {
                &&& joined_len(words@) <= usize::MAX
                &&& height / 2 >= 2
                &&& f.start_y == height / 2
                &&& f.bar_y == height / 2 - 2
                &&& f.start_x == if width < ((joined_len(words@) as usize) as u16) {
                    0
                } else {
                    (width - ((joined_len(words@) as usize) as u16)) / 2
                }
            },
            None => joined_len(words@) > usize::MAX || height / 2 < 2,
        },
{
    let mut total: usize = 0;
    let mut i: usize = 0;
    while i < words.len()
        invariant
            i <= words@.len(),
            total == bytes_sum(words@, i as int),
        decreases words@.len() - i,
    {
        let b = text_bytes(&words[i]);
        match total.checked_add(b) {
            Some(t) => {
                total = t;
            },
            None => {
                proof {
                    lemma_bytes_sum_grows(words@, i + 1, words@.len() as int);
                }
                return None;
            },
        }
        i = i + 1;
    }
    let joined: usize = if words.len() == 0 {
        0
    } else {
        match total.checked_add(words.len() - 1) {
            Some(t) => t,
            None => {
                return None;
            },
        }
    };
    let start_y = height / 2;
    if start_y < 2 {
        return None;
    }
    let w = joined as u16;
    let start_x = if width < w { 0 } else { (width - w) / 2 };
    Some(DefaultFrame { start_x, start_y, bar_y: start_y - 2 })
}

/// How a character of a word is coloured.
#[derive(Debug, Clone, Copy, PartialEq, Eq, Structural)]
pub enum Mark {
    /// Typed as in the word.
    Correct,
    /// Typed otherwise.
    Incorrect,
    /// Not typed yet, in the word being typed.
    Pending,
    /// Not typed, in another word.
    Untyped,
}

/// The colouring of character `i` of the word `w` with typed text `t`:
/// positions below the byte length of `t` are judged against `t`'s
/// character there.
pub open spec fn mark_at(t: Seq<char>, w: Seq<char>, i: int, is_current: bool) -> Mark {
    if i < byte_count(t) {
        if t[i] == w[i] {
            Mark::Correct
        } else {
            Mark::Incorrect
        }
    } else if is_current {
        Mark::Pending
    } else {
        Mark::Untyped
    }
}

/// The colouring of each character of `word` with typed text `typed`.
/// `None` when a position below the byte length of `typed` has no
/// character of `typed` to compare (the typed text holds characters of more
/// than one byte).
pub fn char_marks(word: &String, typed: &String, is_current: bool) -> (r: Option<Vec<Mark>>)
    ensures
        match r {
            Some(v) => {
                &&& v@.len() == word@.len()
                &&& forall|i: int| 0 <= i < word@.len() ==> #[trigger] v@[i] == mark_at(typed@, word@, i, is_current)
            },
            None => typed@.len() < word@.len() && typed@.len() < byte_count(typed@),
        },
{
    let w = chars_of(word.as_str());
    let t = chars_of(typed.as_str());
    let tb = text_bytes(typed);
    let mut v: Vec<Mark> = Vec::new();
    let mut i: usize = 0;
    while i < w.len()
        invariant
            w@ == word@,
            t@ == typed@,
            tb == byte_count(typed@),
            i <= w@.len(),
            v@.len() == i,
            forall|k: int| 0 <= k < i ==> #[trigger] v@[k] == mark_at(typed@, word@, k, is_current),
        decreases w@.len() - i,
    {
        let m = if i < tb {
            if i >= t.len() {
                return None;
            }
            if t[i] == w[i] { Mark::Correct } else { Mark::Incorrect }
        } else if is_current {
            Mark::Pending
        } else {
            Mark::Untyped
        };
        v.push(m);
        i = i + 1;
    }
    Some(v)
}

/// The characters typed beyond a word, shown after it in the error colour:
/// when the typed text is longer in bytes than the word, its characters
/// after as many characters as the word has bytes.
pub open spec fn overflow_of(t: Seq<char>, w: Seq<char>) -> Seq<char> {
    if byte_count(t) > byte_count(w) {
        if byte_count(w) < t.len() {
            t.skip(byte_count(w) as int)
        } else {
            Seq::empty()
        }
    } else {
        Seq::empty()
    }
}

/// The characters of `typed` shown after `word`.
pub fn overflow_chars(word: &String, typed: &String) -> (r: Vec<char>)
    ensures
        r@ == overflow_of(typed@, word@),
{
    let tb = text_bytes(typed);
    let wb = text_bytes(word);
    let mut r: Vec<char> = Vec::new();
    let t = chars_of(typed.as_str());
    if tb > wb && wb < t.len() {
        let mut i: usize = wb;
        while i < t.len()
            invariant
                t@ == typed@,
                wb <= i <= t@.len(),
                r@ == t@.subrange(wb as int, i as int),
            decreases t@.len() - i,
        {
            r.push(t[i]);
            i = i + 1;
        }
        assert(r@ =~= typed@.skip(wb as int));
    } else {
        assert(r@ =~= Seq::<char>::empty());
    }
    r
}

/// Where the cursor stands in a word whose typed text is `typed`, the word
/// starting at column `x`: after the typed bytes. `None` when the column
/// leaves `u16`.
pub fn cursor_column(x: u16, typed: &String) -> (c: Option<u16>)
    ensures
        match c {
            Some(v) => v as int == x as int + (byte_count(typed@) as u16) as int,
            None => x as int + (byte_count(typed@) as u16) as int > u16::MAX,
        },
{
    let n = text_bytes(typed) as u16;
    x.checked_add(n)
}

/// The column at which a text of `len` bytes (taken as a `u16`) is centred
/// across `width` columns. `None` when it is wider.
pub fn centered_column(width: u16, len: usize) -> (c: Option<u16>)
    ensures
        match c {
            Some(v) => (len as u16) <= width && v == (width - (len as u16)) / 2,
            None => (len as u16) > width,
        },
{
    let l = len as u16;
    if l > width {
        None
    } else {
        Some((width - l) / 2)
    }
}

/// The column at which a text of `len` bytes (taken as a `u16`) is centred
/// across `width` columns, or the first column when it is wider.
pub fn centered_or_left(width: u16, len: usize) -> (c: u16)
    ensures
        c == if (len as u16) > width {
            0
        } else {
            (width - (len as u16)) / 2
        },
{
    let l = len as u16;
    if l > width { 0 } else { (width - l) / 2 }
}

/// Law: a placed word ends within the line unless it starts the line, and
/// words on a new line start at its left edge, rows only going down.
pub proof fn law_words_stay_in_line(lens: Seq<u16>, x0: int, limit: int, step: int, y0: int, i: int)
    requires
        0 <= i < lens.len(),
        step >= 0,
    ensures
        ({
            let p = placed(lens, x0, limit, step, y0, i);
            let before = flow(lens, x0, limit, step, y0, i);
            &&& p.0 + lens[i] <= limit || p.0 == x0
            &&& p.1 >= before.1
            &&& p.1 > before.1 ==> p.0 == x0
        }),
{
}

/// Law: the text goes on at rows that never go up as words are placed.
pub proof fn law_rows_never_go_up(lens: Seq<u16>, x0: int, limit: int, step: int, y0: int, a: int, b: int)
    requires
        0 <= a <= b <= lens.len(),
        step >= 0,
    ensures
        flow(lens, x0, limit, step, y0, a).1 <= flow(lens, x0, limit, step, y0, b).1,
    decreases b - a,
{
    if a < b {
        law_rows_never_go_up(lens, x0, limit, step, y0, a, b - 1);
    }
}

/// Law: a typed position of any word, the current one or one already
/// passed, is marked by comparing the characters: correct where the typed
/// character is the word's, incorrect where it differs. Positions not typed
/// yet are pending in the current word and untyped in the others.
pub proof fn law_marks_compare_characters(t: Seq<char>, w: Seq<char>, i: int, is_current: bool)
    requires
        0 <= i < w.len(),
    ensures
        i < byte_count(t) && i < t.len() && t[i] != w[i] ==> mark_at(t, w, i, is_current) == Mark::Incorrect,
        i < byte_count(t) && i < t.len() && t[i] == w[i] ==> mark_at(t, w, i, is_current) == Mark::Correct,
        i < byte_count(t) ==> mark_at(t, w, i, true) == mark_at(t, w, i, false),
        i >= byte_count(t) ==> mark_at(t, w, i, true) == Mark::Pending && mark_at(t, w, i, false)
            == Mark::Untyped,
{
}

} // verus!
