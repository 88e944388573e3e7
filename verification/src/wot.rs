//! The web of trust: how far a root identity trusts every other, going by
//! the trust statements of a pool, and what that makes of the reviews of an
//! artifact.
//!
//! Trust spreads from the root one hop at a time, for `MAX_HOPS` hops. In
//! each hop every identity that is trusted at `Low` or better speaks: whom
//! it distrusts is distrusted from then on, whatever others say, and no
//! longer speaks itself; whom it trusts is raised to the weaker of its own
//! level and the level it states, unless that identity stands higher
//! already. The outcome depends on which statements the pool holds, not on
//! their order.

use crate::content::{pool_view, Content, ContentView};
use crate::id::PubId;
use crate::level::TrustLevel;
use crate::review::{ReviewView, Subject, SubjectView};
use crate::text::{copy_bytes, same_bytes};
use crate::trust::TrustView;
use vstd::prelude::*;

verus! {

/// How many statements in a row lead from the root to an identity at most.
pub const MAX_HOPS: usize = 3;

/// The trust statement at place `i` of a pool, if there is one.
pub open spec fn trust_at(pool: Seq<ContentView>, i: int) -> Option<TrustView> {
    if 0 <= i < pool.len() {
        match pool[i] {
            ContentView::Trust(t) => Some(t),
            ContentView::Review(_) => None,
        }
    } else {
        None
    }
}

/// The review at place `i` of a pool, if there is one.
pub open spec fn review_at(pool: Seq<ContentView>, i: int) -> Option<ReviewView> {
    if 0 <= i < pool.len() {
        match pool[i] {
            ContentView::Review(r) => Some(r),
            ContentView::Trust(_) => None,
        }
    } else {
        None
    }
}

/// The level of an identity in a table of levels; `Neutral` for one that the
/// table does not hold.
pub open spec fn level_in(levels: Map<Seq<u8>, TrustLevel>, id: Seq<u8>) -> TrustLevel {
    if levels.dom().contains(id) {
        levels[id]
    } else {
        TrustLevel::Neutral
    }
}

/// Statement `i` of the pool names `id` at its place `j`, states distrust,
/// and its author can vouch.
pub open spec fn vetoes(
    pool: Seq<ContentView>,
    levels: Map<Seq<u8>, TrustLevel>,
    i: int,
    j: int,
    id: Seq<u8>,
) -> bool {
    match trust_at(pool, i) {
        Some(t) => {
            &&& 0 <= j < t.ids.len()
            &&& t.ids[j].id == id
            &&& t.trust == TrustLevel::Distrust
            &&& level_in(levels, t.from.id).vouches()
        },
        None => false,
    }
}

/// Statement `i` of the pool names `id` at its place `j`, states trust, its
/// author can vouch, and the weaker of the author's level and the stated one
/// is at least `level`.
pub open spec fn supports(
    pool: Seq<ContentView>,
    levels: Map<Seq<u8>, TrustLevel>,
    i: int,
    j: int,
    id: Seq<u8>,
    level: TrustLevel,
) -> bool {
    match trust_at(pool, i) {
        Some(t) => {
            &&& 0 <= j < t.ids.len()
            &&& t.ids[j].id == id
            &&& t.trust != TrustLevel::Distrust
            &&& level_in(levels, t.from.id).vouches()
            &&& TrustLevel::weaker_of(level_in(levels, t.from.id), t.trust).rank() >= level.rank()
        },
        None => false,
    }
}

/// Place `(a, b)` comes before place `(i, j)`, statement by statement and
/// name by name.
pub open spec fn before(a: int, b: int, i: int, j: int) -> bool {
    a < i || (a == i && b < j)
}

/// Some statement before place `(i, j)` vetoes `id`.
pub open spec fn vetoed_upto(
    pool: Seq<ContentView>,
    levels: Map<Seq<u8>, TrustLevel>,
    id: Seq<u8>,
    i: int,
    j: int,
) -> bool {
    exists|a: int, b: int| before(a, b, i, j) && #[trigger] vetoes(pool, levels, a, b, id)
}

/// Some statement before place `(i, j)` supports `id` at `level`.
pub open spec fn supported_upto(
    pool: Seq<ContentView>,
    levels: Map<Seq<u8>, TrustLevel>,
    id: Seq<u8>,
    level: TrustLevel,
    i: int,
    j: int,
) -> bool {
    exists|a: int, b: int| before(a, b, i, j) && #[trigger] supports(pool, levels, a, b, id, level)
}

/// `id` stands at `level` or better already, or a statement before place
/// `(i, j)` supports it there.
pub open spec fn reaches_upto(
    pool: Seq<ContentView>,
    levels: Map<Seq<u8>, TrustLevel>,
    id: Seq<u8>,
    level: TrustLevel,
    i: int,
    j: int,
) -> bool {
    level_in(levels, id).rank() >= level.rank() || supported_upto(pool, levels, id, level, i, j)
}

/// The level of `id` after one more hop, counting only the statements before
/// place `(i, j)`.
pub open spec fn step_upto(
    pool: Seq<ContentView>,
    root: Seq<u8>,
    levels: Map<Seq<u8>, TrustLevel>,
    id: Seq<u8>,
    i: int,
    j: int,
) -> TrustLevel {
    if id == root {
        TrustLevel::High
    } else if level_in(levels, id) == TrustLevel::Distrust || vetoed_upto(pool, levels, id, i, j) {
        TrustLevel::Distrust
    } else if reaches_upto(pool, levels, id, TrustLevel::High, i, j) {
        TrustLevel::High
    } else if reaches_upto(pool, levels, id, TrustLevel::Medium, i, j) {
        TrustLevel::Medium
    } else if reaches_upto(pool, levels, id, TrustLevel::Low, i, j) {
        TrustLevel::Low
    } else {
        TrustLevel::Neutral
    }
}

/// The level of `id` after one more hop.
pub open spec fn step(
    pool: Seq<ContentView>,
    root: Seq<u8>,
    levels: Map<Seq<u8>, TrustLevel>,
    id: Seq<u8>,
) -> TrustLevel {
    step_upto(pool, root, levels, id, pool.len() as int, 0)
}

/// The table of levels after one more hop. It holds the identities whose
/// level is not `Neutral`.
pub open spec fn step_map(
    pool: Seq<ContentView>,
    root: Seq<u8>,
    levels: Map<Seq<u8>, TrustLevel>,
) -> Map<Seq<u8>, TrustLevel> {
    Map::new(
        |id: Seq<u8>| step(pool, root, levels, id) != TrustLevel::Neutral,
        |id: Seq<u8>| step(pool, root, levels, id),
    )
}

/// The table of levels after `hops` hops: at first the root alone, which
/// trusts itself at `High`.
pub open spec fn levels_after(pool: Seq<ContentView>, root: Seq<u8>, hops: nat) -> Map<
    Seq<u8>,
    TrustLevel,
>
    decreases hops,
{
    if hops == 0 {
        Map::empty().insert(root, TrustLevel::High)
    } else {
        step_map(pool, root, levels_after(pool, root, (hops - 1) as nat))
    }
}

/// The effective levels: how far `root` trusts each identity, going by the
/// trust statements of `pool`.
pub open spec fn effective(pool: Seq<ContentView>, root: Seq<u8>) -> Map<Seq<u8>, TrustLevel> {
    levels_after(pool, root, MAX_HOPS as nat)
}

/// The effective level of one identity.
pub open spec fn effective_level(pool: Seq<ContentView>, root: Seq<u8>, id: Seq<u8>) -> TrustLevel {
    level_in(effective(pool, root), id)
}

/// Counting one more name of a statement adds what that name contributes.
pub proof fn lemma_next_name(
    pool: Seq<ContentView>,
    levels: Map<Seq<u8>, TrustLevel>,
    id: Seq<u8>,
    i: int,
    j: int,
)
    ensures
        vetoed_upto(pool, levels, id, i, j + 1) == (vetoed_upto(pool, levels, id, i, j) || vetoes(
            pool,
            levels,
            i,
            j,
            id,
        )),
        forall|level: TrustLevel|
            supported_upto(pool, levels, id, level, i, j + 1) == (#[trigger] supported_upto(
                pool,
                levels,
                id,
                level,
                i,
                j,
            ) || supports(pool, levels, i, j, id, level)),
{
    if vetoes(pool, levels, i, j, id) {
        assert(before(i, j, i, j + 1));
    }
    assert forall|level: TrustLevel|
        supported_upto(pool, levels, id, level, i, j + 1) == (#[trigger] supported_upto(
            pool,
            levels,
            id,
            level,
            i,
            j,
        ) || supports(pool, levels, i, j, id, level)) by {
        if supports(pool, levels, i, j, id, level) {
            assert(before(i, j, i, j + 1));
        }
    }
}

/// A statement whose names from `j` on contribute nothing to `id` can be
/// passed over.
pub proof fn lemma_next_statement(
    pool: Seq<ContentView>,
    levels: Map<Seq<u8>, TrustLevel>,
    id: Seq<u8>,
    i: int,
    j: int,
)
    requires
        forall|b: int| b >= j ==> !#[trigger] vetoes(pool, levels, i, b, id),
        forall|b: int, level: TrustLevel|
            b >= j ==> !#[trigger] supports(pool, levels, i, b, id, level),
    ensures
        vetoed_upto(pool, levels, id, i + 1, 0) == vetoed_upto(pool, levels, id, i, j),
        forall|level: TrustLevel|
            supported_upto(pool, levels, id, level, i + 1, 0) == #[trigger] supported_upto(
                pool,
                levels,
                id,
                level,
                i,
                j,
            ),
{
}

/// One identity and its level.
#[derive(Debug)]
pub struct LevelEntry {
    pub id: Vec<u8>,
    pub level: TrustLevel,
}

/// No identity has two entries.
spec fn distinct(entries: Seq<LevelEntry>) -> bool {
    forall|a: int, b: int|
        #![trigger entries[a], entries[b]]
        0 <= a < b < entries.len() ==> entries[a].id@ != entries[b].id@
}

/// There is an entry for `id`.
pub open spec fn held(entries: Seq<LevelEntry>, id: Seq<u8>) -> bool {
    exists|k: int| 0 <= k < entries.len() && (#[trigger] entries[k]).id@ == id
}

/// The place of an entry for `id`.
spec fn place(entries: Seq<LevelEntry>, id: Seq<u8>) -> int {
    choose|k: int| 0 <= k < entries.len() && (#[trigger] entries[k]).id@ == id
}

/// The level that the entries give `id`: `Neutral` where there is no entry
/// for it.
spec fn looked_up(entries: Seq<LevelEntry>, id: Seq<u8>) -> TrustLevel {
    if held(entries, id) {
        entries[place(entries, id)].level
    } else {
        TrustLevel::Neutral
    }
}

/// The table that the entries make: it holds the identities whose level is
/// not `Neutral`.
spec fn table(entries: Seq<LevelEntry>) -> Map<Seq<u8>, TrustLevel> {
    Map::new(
        |id: Seq<u8>| looked_up(entries, id) != TrustLevel::Neutral,
        |id: Seq<u8>| looked_up(entries, id),
    )
}

/// Where no identity has two entries, the entry at a place is the entry of
/// its identity.
proof fn lemma_entry(entries: Seq<LevelEntry>, k: int)
    requires
        distinct(entries),
        0 <= k < entries.len(),
    ensures
        held(entries, entries[k].id@),
        place(entries, entries[k].id@) == k,
        looked_up(entries, entries[k].id@) == entries[k].level,
{
    let id = entries[k].id@;
    assert((#[trigger] entries[k]).id@ == id);
    let p = place(entries, id);
    assert(entries[p].id@ == id);
    if p < k {
        assert(entries[p].id@ != entries[k].id@);
    }
    if k < p {
        assert(entries[k].id@ != entries[p].id@);
    }
}

/// The table holds an identity where its level is not `Neutral`, and gives
/// it the level that the entries give it.
proof fn lemma_table(entries: Seq<LevelEntry>, id: Seq<u8>)
    ensures
        level_in(table(entries), id) == looked_up(entries, id),
        table(entries).dom().contains(id) <==> looked_up(entries, id) != TrustLevel::Neutral,
{
}

/// A copy of the entries lists every identity with its level in the table,
/// and misses none that does not stand at `Neutral`.
proof fn lemma_listed(entries: Seq<LevelEntry>, out: Seq<LevelEntry>)
    requires
        distinct(entries),
        out.len() == entries.len(),
        forall|k: int|
            0 <= k < entries.len() ==> (#[trigger] out[k]).id@ == entries[k].id@ && out[k].level
                == entries[k].level,
    ensures
        forall|k: int|
            0 <= k < out.len() ==> level_in(table(entries), (#[trigger] out[k]).id@)
                == out[k].level,
        forall|id: Seq<u8>|
            #[trigger] level_in(table(entries), id) != TrustLevel::Neutral ==> held(out, id),
{
    assert forall|k: int| 0 <= k < out.len() implies level_in(
        table(entries),
        (#[trigger] out[k]).id@,
    ) == out[k].level by {
        lemma_entry(entries, k);
        lemma_table(entries, entries[k].id@);
    }
    assert forall|id: Seq<u8>|
        #[trigger] level_in(table(entries), id) != TrustLevel::Neutral implies held(out, id) by {
        lemma_table(entries, id);
        assert(held(entries, id));
        let p = place(entries, id);
        assert(entries[p].id@ == id);
        assert(out[p].id@ == id);
    }
}

/// Where the entry for `key` is, if there is one.
fn find(entries: &Vec<LevelEntry>, key: &[u8]) -> (r: Option<usize>)
    ensures
        match r {
            Some(k) => k < entries@.len() && entries@[k as int].id@ == key@,
            None => !held(entries@, key@),
        },
{
    let mut k: usize = 0;
    while k < entries.len()
        invariant
            k <= entries@.len(),
            forall|a: int| 0 <= a < k ==> (#[trigger] entries@[a]).id@ != key@,
        decreases entries@.len() - k,
    {
        if same_bytes(entries[k].id.as_slice(), key) {
            return Some(k);
        }
        k += 1;
    }
    None
}

/// Puts `key` at `level` and leaves the other identities where they are.
fn put(entries: &mut Vec<LevelEntry>, key: &[u8], level: TrustLevel)
    requires
        distinct(old(entries)@),
    ensures
        distinct(final(entries)@),
        forall|id: Seq<u8>|
            #[trigger] looked_up(final(entries)@, id) == if id == key@ {
                level
            } else {
                looked_up(old(entries)@, id)
            },
{
    let ghost before = entries@;
    match find(entries, key) {
        Some(k) => {
            entries.set(k, LevelEntry { id: copy_bytes(key), level });
            proof {
                let after = entries@;
                assert(after.len() == before.len());
                assert forall|a: int| 0 <= a < after.len() implies (#[trigger] after[a]).id@
                    == before[a].id@ by {}
                assert(distinct(after));
                assert forall|id: Seq<u8>|
                    #[trigger] looked_up(after, id) == if id == key@ {
                        level
                    } else {
                        looked_up(before, id)
                    } by {
                    if held(before, id) {
                        let p = place(before, id);
                        assert(before[p].id@ == id);
                        assert(after[p].id@ == id);
                        lemma_entry(after, p);
                        lemma_entry(before, p);
                    } else if held(after, id) {
                        let p = place(after, id);
                        assert(after[p].id@ == id);
                        assert(before[p].id@ == id);
                    }
                    if id == key@ {
                        lemma_entry(after, k as int);
                    }
                }
            }
        },
        None => {
            entries.push(LevelEntry { id: copy_bytes(key), level });
            proof {
                let after = entries@;
                let n = before.len() as int;
                assert(after.len() == n + 1);
                assert forall|a: int| 0 <= a < n implies #[trigger] after[a] == before[a] by {}
                assert(after[n].id@ == key@);
                assert(distinct(after)) by {
                    assert forall|a: int, b: int|
                        #![trigger after[a], after[b]]
                        0 <= a < b < after.len() implies after[a].id@ != after[b].id@ by {
                        if b == n {
                            assert(before[a].id@ != key@);
                        } else {
                            assert(before[a].id@ != before[b].id@);
                        }
                    }
                }
                assert forall|id: Seq<u8>|
                    #[trigger] looked_up(after, id) == if id == key@ {
                        level
                    } else {
                        looked_up(before, id)
                    } by {
                    if id == key@ {
                        lemma_entry(after, n);
                    } else if held(before, id) {
                        let p = place(before, id);
                        assert(before[p].id@ == id);
                        assert(after[p].id@ == id);
                        lemma_entry(after, p);
                        lemma_entry(before, p);
                    } else if held(after, id) {
                        let p = place(after, id);
                        assert(after[p].id@ == id);
                        assert(before[p].id@ == id);
                    }
                }
            }
        },
    }
}

/// A table of levels: how far the root trusts each identity. An identity
/// that the table does not hold stands at `Neutral`.
#[derive(Debug)]
pub struct LevelMap {
    entries: Vec<LevelEntry>,
}

impl View for LevelMap {
    type V = Map<Seq<u8>, TrustLevel>;

    closed spec fn view(&self) -> Map<Seq<u8>, TrustLevel> {
        table(self.entries@)
    }
}

impl LevelMap {
    #[verifier::type_invariant]
    spec fn one_entry_each(self) -> bool {
        distinct(self.entries@)
    }

    /// How many entries the table has.
    pub closed spec fn count(&self) -> nat {
        self.entries@.len()
    }

    /// The table that holds `root` at `High` and nothing else.
    pub fn rooted(root: &[u8]) -> (r: LevelMap)
        ensures
            r@ == Map::<Seq<u8>, TrustLevel>::empty().insert(root@, TrustLevel::High),
            r.count() == 1,
    {
        let mut entries: Vec<LevelEntry> = Vec::new();
        entries.push(LevelEntry { id: copy_bytes(root), level: TrustLevel::High });
        proof {
            lemma_entry(entries@, 0);
            assert forall|id: Seq<u8>| id != root@ implies !held(entries@, id) by {
                if held(entries@, id) {
                    let k = place(entries@, id);
                    assert(entries@[k].id@ == id);
                }
            }
            assert(table(entries@) =~= Map::<Seq<u8>, TrustLevel>::empty().insert(
                root@,
                TrustLevel::High,
            ));
        }
        LevelMap { entries }
    }

    /// The level of the identity with the given key.
    pub fn get(&self, key: &[u8]) -> (r: TrustLevel)
        ensures
            r == level_in(self@, key@),
    {
        proof {
            use_type_invariant(self);
        }
        match find(&self.entries, key) {
            Some(k) => {
                proof {
                    lemma_entry(self.entries@, k as int);
                }
                self.entries[k].level
            },
            None => TrustLevel::Neutral,
        }
    }

    /// The level of an identity.
    pub fn level(&self, id: &PubId) -> (r: TrustLevel)
        ensures
            r == level_in(self@, id@.id),
    {
        self.get(id.id.as_slice())
    }

    /// Puts the identity with the given key at `level`, and leaves the
    /// others where they are.
    pub fn set(&mut self, key: &[u8], level: TrustLevel)
        ensures
            forall|id: Seq<u8>|
                #[trigger] level_in(final(self)@, id) == if id == key@ {
                    level
                } else {
                    level_in(old(self)@, id)
                },
    {
        proof {
            use_type_invariant(&*self);
        }
        let ghost before = self.entries@;
        let mut entries: Vec<LevelEntry> = Vec::new();
        std::mem::swap(&mut entries, &mut self.entries);
        put(&mut entries, key, level);
        let ghost after = entries@;
        self.entries = entries;
        proof {
            assert forall|id: Seq<u8>|
                #[trigger] level_in(table(after), id) == if id == key@ {
                    level
                } else {
                    level_in(table(before), id)
                } by {
                assert(looked_up(after, id) == if id == key@ {
                    level
                } else {
                    looked_up(before, id)
                });
            }
        }
    }

    /// How many entries the table has.
    pub fn len(&self) -> (r: usize)
        ensures
            r == self.count(),
    {
        self.entries.len()
    }

    /// The entries of the table: each identity that the table holds once,
    /// with its level. Every identity that does not stand at `Neutral` is
    /// among them.
    pub fn entries(&self) -> (r: Vec<LevelEntry>)
        ensures
            r@.len() == self.count(),
            forall|k: int|
                0 <= k < r@.len() ==> level_in(self@, (#[trigger] r@[k]).id@) == r@[k].level,
            forall|a: int, b: int|
                #![trigger r@[a], r@[b]]
                0 <= a < b < r@.len() ==> r@[a].id@ != r@[b].id@,
            forall|id: Seq<u8>|
                #[trigger] level_in(self@, id) != TrustLevel::Neutral ==> held(r@, id),
    {
        proof {
            use_type_invariant(self);
        }
        let out = copy_entries(&self.entries);
        proof {
            lemma_listed(self.entries@, out@);
        }
        out
    }
}

/// A copy of the entries.
fn copy_entries(entries: &Vec<LevelEntry>) -> (r: Vec<LevelEntry>)
    requires
        distinct(entries@),
    ensures
        r@.len() == entries@.len(),
        forall|k: int|
            0 <= k < entries@.len() ==> (#[trigger] r@[k]).id@ == entries@[k].id@ && r@[k].level
                == entries@[k].level,
        distinct(r@),
        table(r@) == table(entries@),
{
    let mut out: Vec<LevelEntry> = Vec::new();
    let mut k: usize = 0;
    while k < entries.len()
        invariant
            k <= entries@.len(),
            out@.len() == k,
            forall|a: int|
                0 <= a < k ==> (#[trigger] out@[a]).id@ == entries@[a].id@ && out@[a].level
                    == entries@[a].level,
        decreases entries@.len() - k,
    {
        let e = &entries[k];
        out.push(LevelEntry { id: copy_bytes(e.id.as_slice()), level: e.level });
        k += 1;
    }
    proof {
        assert(distinct(out@)) by {
            assert forall|a: int, b: int|
                #![trigger out@[a], out@[b]]
                0 <= a < b < out@.len() implies out@[a].id@ != out@[b].id@ by {
                assert(entries@[a].id@ != entries@[b].id@);
            }
        }
        assert forall|id: Seq<u8>| looked_up(out@, id) == looked_up(entries@, id) by {
            if held(entries@, id) {
                let p = place(entries@, id);
                assert(entries@[p].id@ == id);
                assert(out@[p].id@ == id);
                lemma_entry(entries@, p);
                lemma_entry(out@, p);
            } else if held(out@, id) {
                let q = place(out@, id);
                assert(out@[q].id@ == id);
                assert(entries@[q].id@ == id);
            }
        }
        assert(table(out@) =~= table(entries@));
    }
    out
}

impl Clone for LevelMap {
    fn clone(&self) -> (r: LevelMap)
        ensures
            r@ == self@,
            r.count() == self.count(),
    {
        proof {
            use_type_invariant(self);
        }
        LevelMap { entries: copy_entries(&self.entries) }
    }
}

/// One hop: the table of levels that follows from `levels` when every
/// identity that can vouch has spoken once.
pub fn relax(root: &PubId, pool: &Vec<Content>, levels: &LevelMap) -> (next: LevelMap)
    ensures
        next@ == step_map(pool_view(pool@), root@.id, levels@),
        level_in(next@, root@.id) == TrustLevel::High,
{
    let ghost p = pool_view(pool@);
    let ghost lv = levels@;
    let ghost r = root@.id;
    let mut next = levels.clone();
    next.set(root.id.as_slice(), TrustLevel::High);
    proof {
        assert forall|id: Seq<u8>| #[trigger] level_in(next@, id) == step_upto(p, r, lv, id, 0, 0) by {}
    }
    let mut i: usize = 0;
    while i < pool.len()
        invariant
            i <= pool@.len(),
            p == pool_view(pool@),
            lv == levels@,
            r == root@.id,
            forall|id: Seq<u8>| #[trigger] level_in(next@, id) == step_upto(p, r, lv, id, i as int, 0),
        decreases pool@.len() - i,
    {
        match &pool[i] {
            Content::Trust(t) => {
                assert(trust_at(p, i as int) == Some(t@));
                let author = levels.get(t.from.id.as_slice());
                if author.can_vouch() {
                    let mut j: usize = 0;
                    while j < t.ids.len()
                        invariant
                            j <= t.ids@.len(),
                            i < pool@.len(),
                            p == pool_view(pool@),
                            lv == levels@,
                            r == root@.id,
                            trust_at(p, i as int) == Some(t@),
                            author == level_in(lv, t@.from.id),
                            author.vouches(),
                                            forall|id: Seq<u8>| #[trigger]
                                level_in(next@, id) == step_upto(p, r, lv, id, i as int, j as int),
                        decreases t.ids@.len() - j,
                    {
                        let target = t.ids[j].id.as_slice();
                        let ghost earlier = next@;
                        assert(t@.ids[j as int].id == target@);
                        if !same_bytes(target, root.id.as_slice()) {
                            if t.trust == TrustLevel::Distrust {
                                next.set(target, TrustLevel::Distrust);
                            } else {
                                let offered = author.weaker(t.trust);
                                let held = next.get(target);
                                if held != TrustLevel::Distrust && offered.strength()
                                    > held.strength() {
                                    next.set(target, offered);
                                }
                            }
                        }
                        proof {
                            assert forall|id: Seq<u8>| #[trigger]
                                level_in(next@, id) == step_upto(
                                    p,
                                    r,
                                    lv,
                                    id,
                                    i as int,
                                    j as int + 1,
                                ) by {
                                lemma_next_name(p, lv, id, i as int, j as int);
                                assert(level_in(earlier, id) == step_upto(
                                    p,
                                    r,
                                    lv,
                                    id,
                                    i as int,
                                    j as int,
                                ));
                                assert(supported_upto(p, lv, id, TrustLevel::High, i as int, j + 1)
                                    == (supported_upto(
                                    p,
                                    lv,
                                    id,
                                    TrustLevel::High,
                                    i as int,
                                    j as int,
                                ) || supports(p, lv, i as int, j as int, id, TrustLevel::High)));
                                assert(supported_upto(p, lv, id, TrustLevel::Medium, i as int, j + 1)
                                    == (supported_upto(
                                    p,
                                    lv,
                                    id,
                                    TrustLevel::Medium,
                                    i as int,
                                    j as int,
                                ) || supports(p, lv, i as int, j as int, id, TrustLevel::Medium)));
                                assert(supported_upto(p, lv, id, TrustLevel::Low, i as int, j + 1)
                                    == (supported_upto(
                                    p,
                                    lv,
                                    id,
                                    TrustLevel::Low,
                                    i as int,
                                    j as int,
                                ) || supports(p, lv, i as int, j as int, id, TrustLevel::Low)));
                            }
                        }
                        j += 1;
                    }
                    proof {
                        assert forall|id: Seq<u8>| #[trigger]
                            level_in(next@, id) == step_upto(p, r, lv, id, i as int + 1, 0) by {
                            lemma_next_statement(p, lv, id, i as int, j as int);
                            assert(level_in(next@, id) == step_upto(p, r, lv, id, i as int, j as int));
                        }
                    }
                } else {
                    proof {
                        assert forall|id: Seq<u8>| #[trigger]
                            level_in(next@, id) == step_upto(p, r, lv, id, i as int + 1, 0) by {
                            lemma_next_statement(p, lv, id, i as int, 0);
                            assert(level_in(next@, id) == step_upto(p, r, lv, id, i as int, 0));
                        }
                    }
                }
            },
            Content::Review(_) => {
                proof {
                    assert(trust_at(p, i as int) is None);
                    assert forall|id: Seq<u8>| #[trigger]
                        level_in(next@, id) == step_upto(p, r, lv, id, i as int + 1, 0) by {
                        lemma_next_statement(p, lv, id, i as int, 0);
                        assert(level_in(next@, id) == step_upto(p, r, lv, id, i as int, 0));
                    }
                }
            },
        }
        i += 1;
    }
    proof {
        assert forall|id: Seq<u8>| #[trigger] level_in(next@, id) == step(p, r, lv, id) by {}
        assert forall|id: Seq<u8>|
            #[trigger] next@.dom().contains(id) <==> step(p, r, lv, id)
                != TrustLevel::Neutral by {
            lemma_table(next.entries@, id);
            assert(level_in(next@, id) == step(p, r, lv, id));
        }
        assert forall|id: Seq<u8>| next@.dom().contains(id) implies #[trigger] next@[id] == step(
            p,
            r,
            lv,
            id,
        ) by {
            assert(level_in(next@, id) == step(p, r, lv, id));
        }
        assert(next@ =~= step_map(p, r, lv));
    }
    next
}

/// How far `root` trusts each identity, going by the trust statements of
/// `pool`. The reviews in the pool play no part.
pub fn effective_levels(root: &PubId, pool: &Vec<Content>) -> (r: LevelMap)
    ensures
        r@ == effective(pool_view(pool@), root@.id),
{
    let mut levels = LevelMap::rooted(root.id.as_slice());
    let mut hops: usize = 0;
    while hops < MAX_HOPS
        invariant
            hops <= MAX_HOPS,
            levels@ == levels_after(pool_view(pool@), root@.id, hops as nat),
        decreases MAX_HOPS - hops,
    {
        levels = relax(root, pool, &levels);
        hops += 1;
    }
    levels
}

/// What the reviews of an artifact come to.
#[derive(Copy, Clone, Debug, PartialEq, Eq, Structural)]
pub enum Verdict {
    /// A review by an identity that is not distrusted rates the artifact at
    /// the threshold or better.
    Verified,
    /// No review does, and nothing speaks against the artifact.
    Insufficient,
    /// An identity that can vouch distrusts the artifact, or all its reviews
    /// are by distrusted identities.
    Distrusted,
}

/// The review at place `i` of the pool, if it is one of `subject`.
pub open spec fn review_of(pool: Seq<ContentView>, subject: SubjectView, i: int) -> Option<
    ReviewView,
> {
    match review_at(pool, i) {
        Some(r) => if r.subject == subject {
            Some(r)
        } else {
            None
        },
        None => None,
    }
}

/// Review `i` is one of `subject`, states distrust, and its author can
/// vouch.
pub open spec fn condemns(
    pool: Seq<ContentView>,
    levels: Map<Seq<u8>, TrustLevel>,
    subject: SubjectView,
    i: int,
) -> bool {
    match review_of(pool, subject, i) {
        Some(r) => r.rating == TrustLevel::Distrust && level_in(levels, r.from.id).vouches(),
        None => false,
    }
}

/// Review `i` is one of `subject`, its author is not distrusted, and its
/// rating is at least `threshold`.
pub open spec fn commends(
    pool: Seq<ContentView>,
    levels: Map<Seq<u8>, TrustLevel>,
    subject: SubjectView,
    threshold: TrustLevel,
    i: int,
) -> bool {
    match review_of(pool, subject, i) {
        Some(r) => level_in(levels, r.from.id) != TrustLevel::Distrust && r.rating.rank()
            >= threshold.rank(),
        None => false,
    }
}

/// Review `i` is one of `subject`, and its author is not distrusted.
pub open spec fn heard(
    pool: Seq<ContentView>,
    levels: Map<Seq<u8>, TrustLevel>,
    subject: SubjectView,
    i: int,
) -> bool {
    match review_of(pool, subject, i) {
        Some(r) => level_in(levels, r.from.id) != TrustLevel::Distrust,
        None => false,
    }
}

/// Review `i` is one of `subject`, and its author is distrusted.
pub open spec fn dismissed(
    pool: Seq<ContentView>,
    levels: Map<Seq<u8>, TrustLevel>,
    subject: SubjectView,
    i: int,
) -> bool {
    match review_of(pool, subject, i) {
        Some(r) => level_in(levels, r.from.id) == TrustLevel::Distrust,
        None => false,
    }
}

/// The verdict on `subject` that the first `n` contents of the pool give,
/// with the identities at the given levels. A veto comes first: a review
/// that condemns the artifact makes it `Distrusted` whatever the others say.
pub open spec fn verdict_upto(
    pool: Seq<ContentView>,
    levels: Map<Seq<u8>, TrustLevel>,
    subject: SubjectView,
    threshold: TrustLevel,
    n: int,
) -> Verdict {
    if exists|i: int| 0 <= i < n && #[trigger] condemns(pool, levels, subject, i) {
        Verdict::Distrusted
    } else if exists|i: int| 0 <= i < n && #[trigger] commends(pool, levels, subject, threshold, i) {
        Verdict::Verified
    } else if (exists|i: int| 0 <= i < n && #[trigger] dismissed(pool, levels, subject, i)) && !(
    exists|i: int| 0 <= i < n && #[trigger] heard(pool, levels, subject, i)) {
        Verdict::Distrusted
    } else {
        Verdict::Insufficient
    }
}

/// The verdict on `subject` with the identities at the given levels.
pub open spec fn verdict_of(
    pool: Seq<ContentView>,
    levels: Map<Seq<u8>, TrustLevel>,
    subject: SubjectView,
    threshold: TrustLevel,
) -> Verdict {
    verdict_upto(pool, levels, subject, threshold, pool.len() as int)
}

/// The verdict of `root` on `subject`: the one that the reviews in `pool`
/// give with every identity at its effective level.
pub open spec fn resolution(
    pool: Seq<ContentView>,
    root: Seq<u8>,
    subject: SubjectView,
    threshold: TrustLevel,
) -> Verdict {
    verdict_of(pool, effective(pool, root), subject, threshold)
}

/// The verdict on `subject` that the reviews in `pool` give, with the
/// identities at the given levels.
pub fn verdict(levels: &LevelMap, pool: &Vec<Content>, subject: &Subject, threshold: TrustLevel) -> (r:
    Verdict)
    ensures
        r == verdict_of(pool_view(pool@), levels@, subject@, threshold),
{
    let ghost p = pool_view(pool@);
    let ghost lv = levels@;
    let mut condemned = false;
    let mut commended = false;
    let mut any_heard = false;
    let mut any_dismissed = false;
    let mut i: usize = 0;
    while i < pool.len()
        invariant
            i <= pool@.len(),
            p == pool_view(pool@),
            lv == levels@,
            condemned == (exists|k: int| 0 <= k < i && #[trigger] condemns(p, lv, subject@, k)),
            commended == (exists|k: int|
                0 <= k < i && #[trigger] commends(p, lv, subject@, threshold, k)),
            any_heard == (exists|k: int| 0 <= k < i && #[trigger] heard(p, lv, subject@, k)),
            any_dismissed == (exists|k: int| 0 <= k < i && #[trigger] dismissed(p, lv, subject@, k)),
        decreases pool@.len() - i,
    {
        let ghost at = i as int;
        let ghost was = (condemned, commended, any_heard, any_dismissed);
        match &pool[i] {
            Content::Review(r) => {
                assert(review_at(p, i as int) == Some(r@));
                if r.subject.same_as(subject) {
                    let author = levels.get(r.from.id.as_slice());
                    if author == TrustLevel::Distrust {
                        any_dismissed = true;
                    } else {
                        any_heard = true;
                        if r.rating.at_least(threshold) {
                            commended = true;
                        }
                    }
                    if r.rating == TrustLevel::Distrust && author.can_vouch() {
                        condemned = true;
                    }
                }
            },
            Content::Trust(_) => {
                assert(review_at(p, i as int) is None);
            },
        }
        proof {
            assert(condemned == (was.0 || condemns(p, lv, subject@, at)));
            assert(commended == (was.1 || commends(p, lv, subject@, threshold, at)));
            assert(any_heard == (was.2 || heard(p, lv, subject@, at)));
            assert(any_dismissed == (was.3 || dismissed(p, lv, subject@, at)));
        }
        i += 1;
    }
    if condemned {
        Verdict::Distrusted
    } else if commended {
        Verdict::Verified
    } else if any_dismissed && !any_heard {
        Verdict::Distrusted
    } else {
        Verdict::Insufficient
    }
}

/// The verdict of `root` on `subject` at the given threshold, with every
/// identity at its effective level. No pool is without one: where nothing
/// usable is found the outcome is `Insufficient`.
pub fn resolve(root: &PubId, pool: &Vec<Content>, subject: &Subject, threshold: TrustLevel) -> (r:
    Verdict)
    ensures
        r == resolution(pool_view(pool@), root@.id, subject@, threshold),
{
    let levels = effective_levels(root, pool);
    verdict(&levels, pool, subject, threshold)
}

/// A verdict together with the levels it was reached with.
#[derive(Debug)]
pub struct Resolution {
    pub verdict: Verdict,
    pub levels: LevelMap,
}

/// The verdict of `root` on `subject`, and the effective level of every
/// identity that it rests on.
pub fn resolve_with_levels(
    root: &PubId,
    pool: &Vec<Content>,
    subject: &Subject,
    threshold: TrustLevel,
) -> (r: Resolution)
    ensures
        r.verdict == resolution(pool_view(pool@), root@.id, subject@, threshold),
        r.levels@ == effective(pool_view(pool@), root@.id),
{
    let levels = effective_levels(root, pool);
    let verdict = verdict(&levels, pool, subject, threshold);
    Resolution { verdict, levels }
}

/// The verdict of `root` on `subject`, going by the proofs whose signature
/// verifies under the key of their claimed author.
pub fn resolve_proofs(
    root: &PubId,
    proofs: &Vec<crate::proofs::Proof>,
    subject: &Subject,
    threshold: TrustLevel,
) -> (r: Verdict)
    ensures
        r == resolution(
            crate::proofs::accepted(crate::proofs::proofs_view(proofs@)),
            root@.id,
            subject@,
            threshold,
        ),
{
    let pool = crate::proofs::accepted_contents(proofs);
    resolve(root, &pool, subject, threshold)
}

} // verus!
