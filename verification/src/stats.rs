use vstd::prelude::*;

verus! {

/// Whether the results of the highlighted key are listed or plotted.
#[derive(Debug, Clone, Copy, PartialEq, Eq, Structural)]
pub enum ViewMode {
    Table,
    Graph,
}

/// The stats view: which key is highlighted and how its results are shown.
#[derive(Debug, Clone, Copy, PartialEq, Eq, Structural)]
pub struct StatsState {
    pub selected_mode: usize,
    pub view_mode: ViewMode,
}

/// A key press, as far as the stats view tells keys apart.
#[derive(Debug, Clone, Copy, PartialEq, Eq, Structural)]
pub enum StatsKey {
    Quit,
    Up,
    Down,
    Table,
    Graph,
    Other,
}

/// The number of results the table lists, the latest first.
pub const TABLE_ROWS: usize = 5;

/// The height of the plot, in rows above its base line.
pub const GRAPH_HEIGHT: u16 = 10;

impl StatsState {
    /// The view as it opens: the first key highlighted, results in a table.
    pub fn new() -> (s: Self)
        ensures
            s.selected_mode == 0,
            s.view_mode == ViewMode::Table,
    {
        StatsState { selected_mode: 0, view_mode: ViewMode::Table }
    }
}

/// `after` is the view `before` after `key`, with `num_modes` keys saved.
pub open spec fn stats_stepped(before: StatsState, after: StatsState, key: StatsKey, num_modes: nat) -> bool {
    match key {
        StatsKey::Up => after == StatsState {
            selected_mode: if before.selected_mode == 0 {
                0
            } else {
                (before.selected_mode - 1) as usize
            },
            ..before
        },
        StatsKey::Down => after == StatsState {
            selected_mode: if num_modes == 0 {
                before.selected_mode
            } else if before.selected_mode + 1 < num_modes {
                (before.selected_mode + 1) as usize
            } else {
                (num_modes - 1) as usize
            },
            ..before
        },
        StatsKey::Table => after == StatsState { view_mode: ViewMode::Table, ..before },
        StatsKey::Graph => after == StatsState { view_mode: ViewMode::Graph, ..before },
        _ => after == before,
    }
}

/// Handles one key press with `num_modes` keys saved; returns whether the
/// view stays open (`Quit` closes it).
pub fn stats_step(state: &mut StatsState, key: StatsKey, num_modes: usize) -> (stay: bool)
    requires
        key == StatsKey::Down && num_modes > 0 ==> old(state).selected_mode < usize::MAX,
    ensures
        stay == (key != StatsKey::Quit),
        stats_stepped(*old(state), *final(state), key, num_modes as nat),
{
    match key {
        StatsKey::Quit => false,
        StatsKey::Up => {
            if state.selected_mode > 0 {
                state.selected_mode = state.selected_mode - 1;
            }
            true
        },
        StatsKey::Down => {
            if num_modes > 0 {
                let next = state.selected_mode + 1;
                state.selected_mode = if next < num_modes { next } else { num_modes - 1 };
            }
            true
        },
        StatsKey::Table => {
            state.view_mode = ViewMode::Table;
            true
        },
        StatsKey::Graph => {
            state.view_mode = ViewMode::Graph;
            true
        },
        StatsKey::Other => true,
    }
}

/// Law: once a key is highlighted among those saved, the highlight stays
/// among them.
pub proof fn law_stats_highlight_stays(before: StatsState, after: StatsState, key: StatsKey, num_modes: nat)
    requires
        before.selected_mode < num_modes,
        stats_stepped(before, after, key, num_modes),
    ensures
        after.selected_mode < num_modes,
{
}

/// The `n` latest of `entries`, the latest first: what the table lists.
pub fn latest<R>(entries: &Vec<R>, n: usize) -> (r: Vec<&R>)
    ensures
        r@.len() == if n < entries@.len() {
            n as int
        } else {
            entries@.len() as int
        },
        forall|i: int| 0 <= i < r@.len() ==> *#[trigger] r@[i] == entries@[entries@.len() - 1 - i],
{
    let mut r: Vec<&R> = Vec::new();
    let len = entries.len();
    let mut i: usize = 0;
    while i < n && i < len
        invariant
            len == entries@.len(),
            i <= len,
            i <= n,
            r@.len() == i,
            forall|k: int| 0 <= k < i ==> *#[trigger] r@[k] == entries@[len - 1 - k],
        decreases len - i,
    {
        r.push(&entries[len - 1 - i]);
        i = i + 1;
    }
    r
}

/// The rows the results of the highlighted key take up below its title:
/// a header and up to five results for the table; the plot and a gap, or
/// nothing without results, for the graph.
pub open spec fn detail_rows(view: ViewMode, n: nat) -> nat {
    match view {
        ViewMode::Table => 1 + if n < TABLE_ROWS {
            n
        } else {
            TABLE_ROWS as nat
        },
        ViewMode::Graph => if n == 0 {
            0
        } else {
            (GRAPH_HEIGHT + 2) as nat
        },
    }
}

/// The row of the title of key `i`, with key `selected` opened over `detail`
/// rows: keys are two rows apart from row four on, and those after the
/// opened key start below its detail.
pub open spec fn key_row(i: int, selected: int, detail: nat) -> int {
    4 + 2 * i + if i > selected {
        2 + detail
    } else {
        0
    }
}

/// The row below the whole listing.
pub open spec fn listing_end(num_keys: nat, selected: int, detail: nat) -> int {
    (4 + 2 * num_keys + if 0 <= selected < num_keys {
        2 + detail
    } else {
        0
    }) as int
}

/// The rows of the key titles of the listing, when the listing fits in the
/// rows a terminal can address; `None` when it does not.
pub fn stats_rows(num_keys: usize, selected: usize, view: ViewMode, n: usize) -> (rows: Option<Vec<u16>>)
    ensures
        match rows {
            Some(v) => {
                &&& listing_end(num_keys as nat, selected as int, detail_rows(view, n as nat)) <= u16::MAX
                &&& v@.len() == num_keys
                &&& forall|i: int| 0 <= i < num_keys ==> #[trigger] v@[i] == key_row(i, selected as int, detail_rows(view, n as nat))
            },
            None => listing_end(num_keys as nat, selected as int, detail_rows(view, n as nat)) > u16::MAX,
        },
{
    let detail: u64 = match view {
        ViewMode::Table => 1 + if n < TABLE_ROWS { n as u64 } else { TABLE_ROWS as u64 },
        ViewMode::Graph => if n == 0 { 0 } else { (GRAPH_HEIGHT + 2) as u64 },
    };
    if num_keys as u64 > 40000 {
        return None;
    }
    let end: u64 = 4 + 2 * (num_keys as u64) + if selected < num_keys { 2 + detail } else { 0 };
    if end > 65535 {
        return None;
    }
    let mut v: Vec<u16> = Vec::new();
    let mut i: usize = 0;
    while i < num_keys
        invariant
            i <= num_keys <= 40000,
            detail == detail_rows(view, n as nat),
            end == listing_end(num_keys as nat, selected as int, detail as nat),
            end <= 65535,
            v@.len() == i,
            forall|k: int| 0 <= k < i ==> #[trigger] v@[k] == key_row(k, selected as int, detail as nat),
        decreases num_keys - i,
    {
        let extra: u64 = if i > selected { 2 + detail } else { 0 };
        let row: u64 = 4 + 2 * (i as u64) + extra;
        v.push(row as u16);
        i = i + 1;
    }
    Some(v)
}

/// The number of results the graph plots across `width` columns: the
/// column count, or the number of results taken as a `u16`, whichever is
/// smaller.
pub fn graph_columns(width: u16, n: usize) -> (c: u16)
    ensures
        c == if width < (n as u16) {
            width
        } else {
            n as u16
        },
{
    let m = n as u16;
    if width < m { width } else { m }
}

} // verus!
