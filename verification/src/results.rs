use vstd::prelude::*;
use crate::text::{text_lt, text_less, lemma_text_lt_irreflexive, lemma_text_lt_transitive, lemma_text_lt_total};

verus! {

/// The results saved under one test configuration.
#[derive(Debug, Clone)]
pub struct ResultGroup<R> {
    pub key: String,
    pub entries: Vec<R>,
}

/// Saved results, grouped by the key of the test configuration that produced
/// them. Keys are kept in ascending lexicographic order, each key once.
#[derive(Debug)]
pub struct ResultLog<R> {
    groups: Vec<ResultGroup<R>>,
}

/// The keys of `gs`, in order.
pub open spec fn group_keys<R>(gs: Seq<ResultGroup<R>>) -> Seq<Seq<char>> {
    gs.map_values(|g: ResultGroup<R>| g.key@)
}

/// Every key comes strictly before every later key.
pub open spec fn strictly_ascending(ks: Seq<Seq<char>>) -> bool {
    forall|i: int, j: int| 0 <= i < j < ks.len() ==> #[trigger] text_lt(ks[i], ks[j])
}

/// A position in `gs` whose key is `k`, where there is one.
pub open spec fn key_index<R>(gs: Seq<ResultGroup<R>>, k: Seq<char>) -> int {
    choose|i: int| 0 <= i < gs.len() && #[trigger] gs[i].key@ == k
}

/// The map from each key of `gs` to its entries.
pub open spec fn groups_map<R>(gs: Seq<ResultGroup<R>>) -> Map<Seq<char>, Seq<R>> {
    Map::new(
        |k: Seq<char>| exists|i: int| 0 <= i < gs.len() && #[trigger] gs[i].key@ == k,
        |k: Seq<char>| gs[key_index(gs, k)].entries@,
    )
}

proof fn lemma_ascending_distinct(ks: Seq<Seq<char>>, i: int, j: int)
    requires
        strictly_ascending(ks),
        0 <= i < ks.len(),
        0 <= j < ks.len(),
        i != j,
    ensures
        ks[i] != ks[j],
{
    if i < j {
        assert(text_lt(ks[i], ks[j]));
        lemma_text_lt_irreflexive(ks[i]);
    } else {
        assert(text_lt(ks[j], ks[i]));
        lemma_text_lt_irreflexive(ks[i]);
    }
}

/// With distinct keys, the map sends the key of group `i` to the entries of group `i`.
proof fn lemma_groups_map_at<R>(gs: Seq<ResultGroup<R>>, i: int)
    requires
        strictly_ascending(group_keys(gs)),
        0 <= i < gs.len(),
    ensures
        groups_map(gs).contains_key(gs[i].key@),
        groups_map(gs)[gs[i].key@] == gs[i].entries@,
{
    let k = gs[i].key@;
    assert(group_keys(gs)[i] == k);
    assert(exists|j: int| 0 <= j < gs.len() && #[trigger] gs[j].key@ == k);
    let c = key_index(gs, k);
    assert(groups_map(gs).dom().contains(k));
    assert(groups_map(gs)[k] == gs[c].entries@);
    if c != i {
        assert(group_keys(gs)[c] == k);
        lemma_ascending_distinct(group_keys(gs), c, i);
    }
}

/// The keys of the map are exactly the keys of the groups, and there are as
/// many as there are groups.
proof fn lemma_groups_dom<R>(gs: Seq<ResultGroup<R>>)
    requires
        strictly_ascending(group_keys(gs)),
    ensures
        forall|k: Seq<char>| groups_map(gs).contains_key(k) <==> group_keys(gs).contains(k),
        groups_map(gs).dom().finite(),
        groups_map(gs).dom().len() == gs.len(),
{
    let ks = group_keys(gs);
    assert forall|k: Seq<char>| groups_map(gs).contains_key(k) <==> ks.contains(k) by {
        if ks.contains(k) {
            let i = choose|i: int| 0 <= i < ks.len() && ks[i] == k;
            assert(gs[i].key@ == k);
        }
        if groups_map(gs).contains_key(k) {
            let i = choose|i: int| 0 <= i < gs.len() && #[trigger] gs[i].key@ == k;
            assert(ks[i] == k);
        }
    }
    assert forall|i: int, j: int| 0 <= i < ks.len() && 0 <= j < ks.len() && i != j implies ks[i] != ks[j] by {
        lemma_ascending_distinct(ks, i, j);
    }
    ks.unique_seq_to_set();
    assert(groups_map(gs).dom() =~= ks.to_set());
}

/// A map that agrees with every group of `gs` and has no other key is the
/// map of `gs`.
proof fn lemma_groups_map_eq<R>(gs: Seq<ResultGroup<R>>, m: Map<Seq<char>, Seq<R>>)
    requires
        strictly_ascending(group_keys(gs)),
        forall|i: int|
            0 <= i < gs.len() ==> #[trigger] m.contains_key(gs[i].key@) && m[gs[i].key@]
                == gs[i].entries@,
        forall|k: Seq<char>| m.contains_key(k) ==> exists|i: int| 0 <= i < gs.len() && #[trigger] gs[i].key@ == k,
    ensures
        groups_map(gs) == m,
{
    assert forall|k: Seq<char>| #[trigger] groups_map(gs).contains_key(k) <==> m.contains_key(k) by {
        if groups_map(gs).contains_key(k) {
            let i = key_index(gs, k);
            assert(m.contains_key(gs[i].key@));
        }
    }
    assert forall|k: Seq<char>| #[trigger] groups_map(gs).contains_key(k) implies groups_map(gs)[k] == m[k] by {
        let i = key_index(gs, k);
        lemma_groups_map_at(gs, i);
    }
    assert(groups_map(gs) =~= m);
}

impl<R> ResultLog<R> {
    #[verifier::type_invariant]
    spec fn keys_ascending(self) -> bool {
        strictly_ascending(group_keys(self.groups@))
    }

    /// The keys, in ascending order.
    pub closed spec fn key_seq(&self) -> Seq<Seq<char>> {
        group_keys(self.groups@)
    }

    /// The saved entries of each key.
    pub closed spec fn entries_map(&self) -> Map<Seq<char>, Seq<R>> {
        groups_map(self.groups@)
    }

    /// An empty log.
    pub fn new() -> (log: Self)
        ensures
            log@ == Map::<Seq<char>, Seq<R>>::empty(),
            log.key_seq() == Seq::<Seq<char>>::empty(),
    {
        let log = ResultLog { groups: Vec::new() };
        assert(log@ =~= Map::<Seq<char>, Seq<R>>::empty());
        assert(log.key_seq() =~= Seq::<Seq<char>>::empty());
        log
    }

    /// The number of keys.
    pub fn len(&self) -> (n: usize)
        ensures
            n == self.key_seq().len(),
            n == self@.dom().len(),
    {
        proof {
            use_type_invariant(self);
            lemma_groups_dom(self.groups@);
        }
        self.groups.len()
    }

    /// Where `key` stands: `Ok(i)` if group `i` has it, else `Err(p)` with every
    /// key before `p` smaller and every key from `p` on larger.
    fn locate(&self, key: &String) -> (r: Result<usize, usize>)
        ensures
            match r {
                Ok(i) => i < self.groups@.len() && self.groups@[i as int].key@ == key@,
                Err(p) => {
                    &&& p <= self.groups@.len()
                    &&& forall|j: int| 0 <= j < p ==> text_lt(#[trigger] self.groups@[j].key@, key@)
                    &&& forall|j: int| p <= j < self.groups@.len() ==> text_lt(key@, #[trigger] self.groups@[j].key@)
                },
            },
    {
        proof {
            use_type_invariant(self);
        }
        let ghost ks = group_keys(self.groups@);
        let mut i: usize = 0;
        while i < self.groups.len()
            invariant
                i <= self.groups@.len(),
                ks == group_keys(self.groups@),
                strictly_ascending(ks),
                forall|j: int| 0 <= j < i ==> text_lt(#[trigger] self.groups@[j].key@, key@),
            decreases self.groups@.len() - i,
        {
            let k = &self.groups[i].key;
            if *k == *key {
                return Ok(i);
            }
            if !text_less(k.as_str(), key.as_str()) {
                proof {
                    lemma_text_lt_total(k@, key@);
                    assert forall|j: int| i <= j < self.groups@.len() implies text_lt(key@, #[trigger] self.groups@[j].key@) by {
                        if j > i {
                            assert(ks[i as int] == k@ && ks[j] == self.groups@[j].key@);
                            assert(text_lt(ks[i as int], ks[j]));
                            lemma_text_lt_transitive(key@, k@, self.groups@[j].key@);
                        }
                    }
                }
                return Err(i);
            }
            i = i + 1;
        }
        Err(i)
    }

    /// The entries saved under `key`, if any.
    pub fn get(&self, key: &String) -> (r: Option<&Vec<R>>)
        ensures
            match r {
                Some(v) => self@.contains_key(key@) && v@ == self@[key@],
                None => !self@.contains_key(key@),
            },
    {
        proof {
            use_type_invariant(self);
        }
        match self.locate(key) {
            Ok(i) => {
                proof {
                    lemma_groups_map_at(self.groups@, i as int);
                }
                Some(&self.groups[i].entries)
            },
            Err(p) => {
                proof {
                    if self@.contains_key(key@) {
                        let j = key_index(self.groups@, key@);
                        lemma_text_lt_irreflexive(key@);
                        if j < p {
                            assert(text_lt(self.groups@[j].key@, key@));
                        } else {
                            assert(text_lt(key@, self.groups@[j].key@));
                        }
                    }
                }
                None
            },
        }
    }

    /// Puts `entries` under `key`, in place of what was there.
    pub fn set_entries(&mut self, key: String, entries: Vec<R>)
        ensures
            final(self)@ == old(self)@.insert(key@, entries@),
    {
        self.put(key, entries, false);
    }

    /// Appends `result` to the entries of `key`, creating the key if it is new.
    pub fn record(&mut self, key: String, result: R)
        ensures
            final(self)@ == old(self)@.insert(
                key@,
                if old(self)@.contains_key(key@) {
                    old(self)@[key@].push(result)
                } else {
                    seq![result]
                },
            ),
    {
        let mut entries: Vec<R> = Vec::new();
        entries.push(result);
        assert(entries@ =~= seq![result]);
        let ghost before = self@;
        self.put(key, entries, true);
        proof {
            if before.contains_key(key@) {
                assert(before[key@] + seq![result] =~= before[key@].push(result));
            }
        }
    }

    /// Puts `entries` under `key`: after what is there when `append` holds,
    /// in its place otherwise.
    fn put(&mut self, key: String, entries: Vec<R>, append: bool)
        ensures
            final(self)@ == old(self)@.insert(
                key@,
                if append && old(self)@.contains_key(key@) {
                    old(self)@[key@] + entries@
                } else {
                    entries@
                },
            ),
    {
        proof {
            use_type_invariant(&*self);
        }
        let ghost old_map = self@;
        let ghost old_gs = self.groups@;
        let loc = self.locate(&key);
        let mut groups: Vec<ResultGroup<R>> = Vec::new();
        std::mem::swap(&mut groups, &mut self.groups);
        assert(groups@ == old_gs);
        let ghost target = if append && old_map.contains_key(key@) {
            old_map[key@] + entries@
        } else {
            entries@
        };
        let ghost m = old_map.insert(key@, target);
        match loc {
            Ok(i) => {
                let mut g = groups.remove(i);
                if append {
                    let mut more = entries;
                    g.entries.append(&mut more);
                } else {
                    g.entries = entries;
                }
                groups.insert(i, g);
                proof {
                    lemma_groups_map_at(old_gs, i as int);
                    assert(group_keys(groups@) =~= group_keys(old_gs));
                    assert forall|j: int| 0 <= j < groups@.len() implies #[trigger] m.contains_key(groups@[j].key@)
                        && m[groups@[j].key@] == groups@[j].entries@ by {
                        if j != i {
                            lemma_groups_map_at(old_gs, j);
                            lemma_ascending_distinct(group_keys(old_gs), i as int, j);
                            assert(group_keys(old_gs)[j] == old_gs[j].key@);
                            assert(group_keys(old_gs)[i as int] == old_gs[i as int].key@);
                        }
                    }
                    assert forall|k: Seq<char>| m.contains_key(k) implies exists|j: int| 0 <= j < groups@.len() && #[trigger] groups@[j].key@ == k by {
                        if k != key@ {
                            let j = key_index(old_gs, k);
                            assert(groups@[j].key@ == k);
                        } else {
                            assert(groups@[i as int].key@ == k);
                        }
                    }
                    lemma_groups_map_eq(groups@, m);
                }
            },
            Err(p) => {
                proof {
                    if old_map.contains_key(key@) {
                        let j = key_index(old_gs, key@);
                        lemma_text_lt_irreflexive(key@);
                        if j < p {
                            assert(text_lt(old_gs[j].key@, key@));
                        } else {
                            assert(text_lt(key@, old_gs[j].key@));
                        }
                    }
                }
                let g = ResultGroup { key, entries };
                groups.insert(p, g);
                proof {
                    let ks = group_keys(groups@);
                    let oks = group_keys(old_gs);
                    assert forall|a: int, b: int| 0 <= a < b < ks.len() implies #[trigger] text_lt(ks[a], ks[b]) by {
                        if a < p && b < p {
                            assert(ks[a] == oks[a] && ks[b] == oks[b]);
                        } else if a < p && b == p {
                            assert(ks[a] == old_gs[a].key@);
                        } else if a < p {
                            assert(ks[a] == old_gs[a].key@);
                            assert(ks[b] == old_gs[b - 1].key@);
                            assert(text_lt(old_gs[a].key@, key@));
                            assert(text_lt(key@, old_gs[b - 1].key@));
                            lemma_text_lt_transitive(old_gs[a].key@, key@, old_gs[b - 1].key@);
                        } else if a == p {
                            assert(ks[b] == old_gs[b - 1].key@);
                        } else {
                            assert(ks[a] == oks[a - 1] && ks[b] == oks[b - 1]);
                        }
                    }
                    assert forall|j: int| 0 <= j < groups@.len() implies #[trigger] m.contains_key(groups@[j].key@)
                        && m[groups@[j].key@] == groups@[j].entries@ by {
                        if j < p {
                            lemma_groups_map_at(old_gs, j);
                            assert(text_lt(old_gs[j].key@, key@));
                            lemma_text_lt_irreflexive(key@);
                        } else if j > p {
                            lemma_groups_map_at(old_gs, j - 1);
                            assert(text_lt(key@, old_gs[j - 1].key@));
                            lemma_text_lt_irreflexive(key@);
                        }
                    }
                    assert forall|k: Seq<char>| m.contains_key(k) implies exists|j: int| 0 <= j < groups@.len() && #[trigger] groups@[j].key@ == k by {
                        if k != key@ {
                            let j = key_index(old_gs, k);
                            if j < p {
                                assert(groups@[j].key@ == k);
                            } else {
                                assert(groups@[j + 1].key@ == k);
                            }
                        } else {
                            assert(groups@[p as int].key@ == k);
                        }
                    }
                    lemma_groups_map_eq(groups@, m);
                }
            },
        }
        self.groups = groups;
    }

    /// The keys, in ascending order.
    pub fn keys(&self) -> (r: Vec<String>)
        ensures
            r@.len() == self.key_seq().len(),
            forall|i: int| 0 <= i < r@.len() ==> #[trigger] r@[i]@ == self.key_seq()[i],
            strictly_ascending(self.key_seq()),
            forall|k: Seq<char>| self@.contains_key(k) <==> self.key_seq().contains(k),
    {
        proof {
            use_type_invariant(self);
            lemma_groups_dom(self.groups@);
        }
        let mut r: Vec<String> = Vec::new();
        let mut i: usize = 0;
        while i < self.groups.len()
            invariant
                i <= self.groups@.len(),
                r@.len() == i,
                forall|j: int| 0 <= j < i ==> #[trigger] r@[j]@ == self.key_seq()[j],
            decreases self.groups@.len() - i,
        {
            r.push(self.groups[i].key.clone());
            i = i + 1;
        }
        r
    }

    /// The entries under the `i`-th key in ascending order.
    pub fn entries_at(&self, i: usize) -> (r: &Vec<R>)
        requires
            i < self.key_seq().len(),
        ensures
            self@.contains_key(self.key_seq()[i as int]),
            r@ == self@[self.key_seq()[i as int]],
    {
        proof {
            use_type_invariant(self);
            lemma_groups_map_at(self.groups@, i as int);
        }
        &self.groups[i].entries
    }

    /// The groups of the log, keys ascending, each with its entries.
    pub fn into_groups(self) -> (gs: Vec<ResultGroup<R>>)
        ensures
            group_keys(gs@) == self.key_seq(),
            strictly_ascending(group_keys(gs@)),
            forall|i: int| 0 <= i < gs@.len() ==> self@.contains_key(#[trigger] gs@[i].key@)
                && gs@[i].entries@ == self@[gs@[i].key@],
    {
        proof {
            use_type_invariant(&self);
            assert forall|i: int| 0 <= i < self.groups@.len() implies self@.contains_key(#[trigger] self.groups@[i].key@)
                && self.groups@[i].entries@ == self@[self.groups@[i].key@] by {
                lemma_groups_map_at(self.groups@, i);
            }
        }
        let ResultLog { groups } = self;
        groups
    }

    /// Whether no result has been saved.
    pub fn is_empty(&self) -> (b: bool)
        ensures
            b == (self@.dom().len() == 0),
            b == (self.key_seq().len() == 0),
    {
        self.len() == 0
    }
}

impl<R> View for ResultLog<R> {
    type V = Map<Seq<char>, Seq<R>>;

    open spec fn view(&self) -> Map<Seq<char>, Seq<R>> {
        self.entries_map()
    }
}

/// Law: reading a key after a result was recorded under it gives the
/// entries it had (none, if it was new) with the result at the end; every
/// other key keeps its entries.
pub proof fn law_record_then_read<R>(
    before: Map<Seq<char>, Seq<R>>,
    after: Map<Seq<char>, Seq<R>>,
    key: Seq<char>,
    result: R,
)
    requires
        after == before.insert(
            key,
            if before.contains_key(key) {
                before[key].push(result)
            } else {
                seq![result]
            },
        ),
    ensures
        after.contains_key(key),
        after[key].len() > 0,
        after[key].last() == result,
        after[key].drop_last() == if before.contains_key(key) {
            before[key]
        } else {
            Seq::<R>::empty()
        },
        forall|k: Seq<char>|
            k != key ==> (after.contains_key(k) == before.contains_key(k) && (before.contains_key(k)
                ==> #[trigger] after[k] == before[k])),
{
    if before.contains_key(key) {
        assert(before[key].push(result).drop_last() =~= before[key]);
    } else {
        assert(seq![result].drop_last() =~= Seq::<R>::empty());
    }
}

} // verus!
