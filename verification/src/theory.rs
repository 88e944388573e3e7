//! What holds of the web of trust, whatever the pool.

use crate::content::ContentView;
use crate::level::TrustLevel;
use crate::proofs::{accepted, ProofView};
use crate::review::SubjectView;
use crate::wot::{
    before, commends, condemns, dismissed, effective, effective_level, heard, level_in,
    levels_after, resolution, review_at, review_of, step, step_map, step_upto, supported_upto,
    supports, trust_at, verdict_of, verdict_upto, vetoed_upto, vetoes, MAX_HOPS,
};
use vstd::prelude::*;

verus! {

/// Every content of `a` is a content of `b`.
pub open spec fn within(a: Seq<ContentView>, b: Seq<ContentView>) -> bool {
    forall|i: int| 0 <= i < a.len() ==> b.contains(#[trigger] a[i])
}

/// Two pools with the same contents, each as often as in the other, hold the
/// same contents.
pub proof fn lemma_same_contents(a: Seq<ContentView>, b: Seq<ContentView>)
    requires
        a.to_multiset() == b.to_multiset(),
    ensures
        within(a, b),
        within(b, a),
{
    a.to_multiset_ensures();
    b.to_multiset_ensures();
    assert forall|i: int| 0 <= i < a.len() implies b.contains(#[trigger] a[i]) by {
        assert(a.contains(a[i]));
        assert(a.to_multiset().count(a[i]) > 0);
    }
    assert forall|i: int| 0 <= i < b.len() implies a.contains(#[trigger] b[i]) by {
        assert(b.contains(b[i]));
        assert(b.to_multiset().count(b[i]) > 0);
    }
}

/// The level of an identity after a hop is what the hop makes of it.
pub proof fn lemma_level_after_step(
    pool: Seq<ContentView>,
    root: Seq<u8>,
    levels: Map<Seq<u8>, TrustLevel>,
    id: Seq<u8>,
)
    ensures
        level_in(step_map(pool, root, levels), id) == step(pool, root, levels, id),
{
}

/// The root trusts itself at `High` after any number of hops.
pub proof fn lemma_root_is_high(pool: Seq<ContentView>, root: Seq<u8>, hops: nat)
    ensures
        level_in(levels_after(pool, root, hops), root) == TrustLevel::High,
    decreases hops,
{
    if hops > 0 {
        lemma_level_after_step(pool, root, levels_after(pool, root, (hops - 1) as nat), root);
    }
}

/// What a statement of one pool does to an identity, the same statement
/// does in any pool that holds it.
proof fn lemma_step_within(
    a: Seq<ContentView>,
    b: Seq<ContentView>,
    levels: Map<Seq<u8>, TrustLevel>,
    id: Seq<u8>,
)
    requires
        within(a, b),
    ensures
        vetoed_upto(a, levels, id, a.len() as int, 0) ==> vetoed_upto(
            b,
            levels,
            id,
            b.len() as int,
            0,
        ),
        forall|level: TrustLevel| #[trigger]
            supported_upto(a, levels, id, level, a.len() as int, 0) ==> supported_upto(
                b,
                levels,
                id,
                level,
                b.len() as int,
                0,
            ),
{
    if vetoed_upto(a, levels, id, a.len() as int, 0) {
        let (i, j) = choose|i: int, j: int|
            before(i, j, a.len() as int, 0) && #[trigger] vetoes(a, levels, i, j, id);
        assert(b.contains(a[i]));
        let k = choose|k: int| 0 <= k < b.len() && b[k] == a[i];
        assert(trust_at(b, k) == trust_at(a, i));
        assert(before(k, j, b.len() as int, 0) && vetoes(b, levels, k, j, id));
    }
    assert forall|level: TrustLevel| #[trigger]
        supported_upto(a, levels, id, level, a.len() as int, 0) implies supported_upto(
        b,
        levels,
        id,
        level,
        b.len() as int,
        0,
    ) by {
        let (i, j) = choose|i: int, j: int|
            before(i, j, a.len() as int, 0) && #[trigger] supports(a, levels, i, j, id, level);
        assert(b.contains(a[i]));
        let k = choose|k: int| 0 <= k < b.len() && b[k] == a[i];
        assert(trust_at(b, k) == trust_at(a, i));
        assert(before(k, j, b.len() as int, 0) && supports(b, levels, k, j, id, level));
    }
}

/// One hop does the same in two pools that hold the same contents.
pub proof fn lemma_step_same(
    a: Seq<ContentView>,
    b: Seq<ContentView>,
    root: Seq<u8>,
    levels: Map<Seq<u8>, TrustLevel>,
)
    requires
        within(a, b),
        within(b, a),
    ensures
        step_map(a, root, levels) == step_map(b, root, levels),
{
    assert forall|id: Seq<u8>| step(a, root, levels, id) == step(b, root, levels, id) by {
        lemma_step_within(a, b, levels, id);
        lemma_step_within(b, a, levels, id);
    }
    assert(step_map(a, root, levels) =~= step_map(b, root, levels));
}

/// The levels after any number of hops are the same in two pools that hold
/// the same contents.
pub proof fn lemma_levels_same(a: Seq<ContentView>, b: Seq<ContentView>, root: Seq<u8>, hops: nat)
    requires
        within(a, b),
        within(b, a),
    ensures
        levels_after(a, root, hops) == levels_after(b, root, hops),
    decreases hops,
{
    if hops > 0 {
        lemma_levels_same(a, b, root, (hops - 1) as nat);
        lemma_step_same(a, b, root, levels_after(a, root, (hops - 1) as nat));
    }
}

/// What a review of one pool says of a subject, the same review says in any
/// pool that holds it.
proof fn lemma_verdict_within(
    a: Seq<ContentView>,
    b: Seq<ContentView>,
    levels: Map<Seq<u8>, TrustLevel>,
    subject: SubjectView,
    threshold: TrustLevel,
)
    requires
        within(a, b),
    ensures
        (exists|i: int| 0 <= i < a.len() && #[trigger] condemns(a, levels, subject, i)) ==> (
        exists|i: int| 0 <= i < b.len() && #[trigger] condemns(b, levels, subject, i)),
        (exists|i: int| 0 <= i < a.len() && #[trigger] commends(a, levels, subject, threshold, i))
            ==> (exists|i: int|
            0 <= i < b.len() && #[trigger] commends(b, levels, subject, threshold, i)),
        (exists|i: int| 0 <= i < a.len() && #[trigger] heard(a, levels, subject, i)) ==> (exists|
            i: int,
        | 0 <= i < b.len() && #[trigger] heard(b, levels, subject, i)),
        (exists|i: int| 0 <= i < a.len() && #[trigger] dismissed(a, levels, subject, i)) ==> (
        exists|i: int| 0 <= i < b.len() && #[trigger] dismissed(b, levels, subject, i)),
{
    if exists|i: int| 0 <= i < a.len() && #[trigger] condemns(a, levels, subject, i) {
        let i = choose|i: int| 0 <= i < a.len() && #[trigger] condemns(a, levels, subject, i);
        assert(b.contains(a[i]));
        let k = choose|k: int| 0 <= k < b.len() && b[k] == a[i];
        assert(review_of(b, subject, k) == review_of(a, subject, i));
        assert(condemns(b, levels, subject, k));
    }
    if exists|i: int| 0 <= i < a.len() && #[trigger] commends(a, levels, subject, threshold, i) {
        let i = choose|i: int|
            0 <= i < a.len() && #[trigger] commends(a, levels, subject, threshold, i);
        assert(b.contains(a[i]));
        let k = choose|k: int| 0 <= k < b.len() && b[k] == a[i];
        assert(review_of(b, subject, k) == review_of(a, subject, i));
        assert(commends(b, levels, subject, threshold, k));
    }
    if exists|i: int| 0 <= i < a.len() && #[trigger] heard(a, levels, subject, i) {
        let i = choose|i: int| 0 <= i < a.len() && #[trigger] heard(a, levels, subject, i);
        assert(b.contains(a[i]));
        let k = choose|k: int| 0 <= k < b.len() && b[k] == a[i];
        assert(review_of(b, subject, k) == review_of(a, subject, i));
        assert(heard(b, levels, subject, k));
    }
    if exists|i: int| 0 <= i < a.len() && #[trigger] dismissed(a, levels, subject, i) {
        let i = choose|i: int| 0 <= i < a.len() && #[trigger] dismissed(a, levels, subject, i);
        assert(b.contains(a[i]));
        let k = choose|k: int| 0 <= k < b.len() && b[k] == a[i];
        assert(review_of(b, subject, k) == review_of(a, subject, i));
        assert(dismissed(b, levels, subject, k));
    }
}

/// With the identities at given levels, two pools that hold the same
/// contents give the same verdict.
pub proof fn lemma_verdict_same(
    a: Seq<ContentView>,
    b: Seq<ContentView>,
    levels: Map<Seq<u8>, TrustLevel>,
    subject: SubjectView,
    threshold: TrustLevel,
)
    requires
        within(a, b),
        within(b, a),
    ensures
        verdict_of(a, levels, subject, threshold) == verdict_of(b, levels, subject, threshold),
{
    lemma_verdict_within(a, b, levels, subject, threshold);
    lemma_verdict_within(b, a, levels, subject, threshold);
}

/// The order of the pool does not matter: a pool and any rearrangement of it
/// give every identity the same effective level, and every subject the same
/// verdict.
pub proof fn lemma_order_independent(
    a: Seq<ContentView>,
    b: Seq<ContentView>,
    root: Seq<u8>,
    subject: SubjectView,
    threshold: TrustLevel,
)
    requires
        a.to_multiset() == b.to_multiset(),
    ensures
        effective(a, root) == effective(b, root),
        resolution(a, root, subject, threshold) == resolution(b, root, subject, threshold),
{
    lemma_same_contents(a, b);
    lemma_levels_same(a, b, root, MAX_HOPS as nat);
    lemma_verdict_same(a, b, effective(a, root), subject, threshold);
}

/// Distrust is final: an identity other than the root that is distrusted
/// after some hops is distrusted after any number of further hops.
pub proof fn lemma_distrust_is_final(
    pool: Seq<ContentView>,
    root: Seq<u8>,
    id: Seq<u8>,
    hops: nat,
    later: nat,
)
    requires
        id != root,
        hops <= later,
        level_in(levels_after(pool, root, hops), id) == TrustLevel::Distrust,
    ensures
        level_in(levels_after(pool, root, later), id) == TrustLevel::Distrust,
    decreases later,
{
    if later > hops {
        lemma_distrust_is_final(pool, root, id, hops, (later - 1) as nat);
        lemma_level_after_step(pool, root, levels_after(pool, root, (later - 1) as nat), id);
    }
}

/// A veto holds: where a statement vetoes an identity other than the root
/// at some hop before the last, that identity's effective level is
/// `Distrust`, whatever any other statement says of it.
pub proof fn lemma_veto_holds(
    pool: Seq<ContentView>,
    root: Seq<u8>,
    id: Seq<u8>,
    hops: nat,
    i: int,
    j: int,
)
    requires
        id != root,
        hops < MAX_HOPS,
        vetoes(pool, levels_after(pool, root, hops), i, j, id),
    ensures
        effective_level(pool, root, id) == TrustLevel::Distrust,
{
    let levels = levels_after(pool, root, hops);
    assert(before(i, j, pool.len() as int, 0));
    assert(vetoed_upto(pool, levels, id, pool.len() as int, 0));
    lemma_level_after_step(pool, root, levels, id);
    assert(levels_after(pool, root, hops + 1) == step_map(pool, root, levels));
    lemma_distrust_is_final(pool, root, id, hops + 1, MAX_HOPS as nat);
}

/// The root's veto dominates: an identity that a statement of the root
/// distrusts has the effective level `Distrust`, even where other
/// statements would lead to it at a level of trust.
pub proof fn lemma_veto_dominance(pool: Seq<ContentView>, root: Seq<u8>, i: int, j: int)
    requires
        trust_at(pool, i) is Some,
        trust_at(pool, i)->0.from.id == root,
        trust_at(pool, i)->0.trust == TrustLevel::Distrust,
        0 <= j < trust_at(pool, i)->0.ids.len(),
        trust_at(pool, i)->0.ids[j].id != root,
    ensures
        effective_level(pool, root, trust_at(pool, i)->0.ids[j].id) == TrustLevel::Distrust,
{
    lemma_root_is_high(pool, root, 0);
    lemma_veto_holds(pool, root, trust_at(pool, i)->0.ids[j].id, 0, i, j);
}

/// A statement that supports an identity at a level supports it at every
/// weaker level.
proof fn lemma_supports_weaker(
    pool: Seq<ContentView>,
    levels: Map<Seq<u8>, TrustLevel>,
    i: int,
    j: int,
    id: Seq<u8>,
    level: TrustLevel,
    weaker: TrustLevel,
)
    requires
        supports(pool, levels, i, j, id, level),
        weaker.rank() <= level.rank(),
    ensures
        supports(pool, levels, i, j, id, weaker),
{
}

/// Trust is never amplified: an identity other than the root that stands at
/// `Low` or better after some hops has a statement behind it that names it,
/// states that level or a better one, and whose author stood at that level
/// or a better one at an earlier hop.
pub proof fn lemma_no_amplification(pool: Seq<ContentView>, root: Seq<u8>, id: Seq<u8>, hops: nat)
    requires
        id != root,
        level_in(levels_after(pool, root, hops), id).vouches(),
    ensures
        exists|h: nat, i: int, j: int|
            h < hops && #[trigger] supports(
                pool,
                levels_after(pool, root, h),
                i,
                j,
                id,
                level_in(levels_after(pool, root, hops), id),
            ),
    decreases hops,
{
    let level = level_in(levels_after(pool, root, hops), id);
    if hops == 0 {
        assert(level == TrustLevel::Neutral);
    } else {
        let k = (hops - 1) as nat;
        let earlier = levels_after(pool, root, k);
        lemma_level_after_step(pool, root, earlier, id);
        assert(level == step(pool, root, earlier, id));
        if supported_upto(pool, earlier, id, level, pool.len() as int, 0) {
            let (i, j) = choose|i: int, j: int|
                before(i, j, pool.len() as int, 0) && #[trigger] supports(
                    pool,
                    earlier,
                    i,
                    j,
                    id,
                    level,
                );
            assert(k < hops && supports(pool, levels_after(pool, root, k), i, j, id, level));
        } else {
            let held = level_in(earlier, id);
            assert(held.rank() >= level.rank());
            lemma_no_amplification(pool, root, id, k);
            let (h, i, j) = choose|h: nat, i: int, j: int|
                h < k && #[trigger] supports(pool, levels_after(pool, root, h), i, j, id, held);
            lemma_supports_weaker(pool, levels_after(pool, root, h), i, j, id, held, level);
            assert(h < hops && supports(pool, levels_after(pool, root, h), i, j, id, level));
        }
    }
}

/// The statement behind a level bounds it: neither the level that the
/// statement states nor the level of its author is weaker than the level
/// that it supports.
pub proof fn lemma_support_bounds(
    pool: Seq<ContentView>,
    levels: Map<Seq<u8>, TrustLevel>,
    i: int,
    j: int,
    id: Seq<u8>,
    level: TrustLevel,
)
    requires
        supports(pool, levels, i, j, id, level),
    ensures
        trust_at(pool, i) is Some,
        trust_at(pool, i)->0.trust.rank() >= level.rank(),
        level_in(levels, trust_at(pool, i)->0.from.id).rank() >= level.rank(),
{
}

/// An identity that no trust statement names stands at `Neutral`.
pub proof fn lemma_unnamed_is_neutral(pool: Seq<ContentView>, root: Seq<u8>, id: Seq<u8>, hops: nat)
    requires
        id != root,
        forall|i: int, j: int|
            trust_at(pool, i) is Some && 0 <= j < trust_at(pool, i)->0.ids.len() ==> (
            #[trigger] trust_at(pool, i)->0.ids[j]).id != id,
    ensures
        level_in(levels_after(pool, root, hops), id) == TrustLevel::Neutral,
    decreases hops,
{
    if hops > 0 {
        let earlier = levels_after(pool, root, (hops - 1) as nat);
        lemma_unnamed_is_neutral(pool, root, id, (hops - 1) as nat);
        lemma_level_after_step(pool, root, earlier, id);
        assert forall|i: int, j: int| !vetoes(pool, earlier, i, j, id) by {
            if vetoes(pool, earlier, i, j, id) {
                assert(trust_at(pool, i)->0.ids[j].id == id);
            }
        }
        assert forall|i: int, j: int, level: TrustLevel|
            !supports(pool, earlier, i, j, id, level) by {
            if supports(pool, earlier, i, j, id, level) {
                assert(trust_at(pool, i)->0.ids[j].id == id);
            }
        }
    }
}

/// Every subject has exactly one verdict, and without reviews of the
/// subject it is `Insufficient`.
pub proof fn lemma_no_reviews(
    pool: Seq<ContentView>,
    root: Seq<u8>,
    subject: SubjectView,
    threshold: TrustLevel,
)
    requires
        forall|i: int| #[trigger] review_of(pool, subject, i) is None,
    ensures
        resolution(pool, root, subject, threshold) == crate::wot::Verdict::Insufficient,
{
    let levels = effective(pool, root);
    assert forall|i: int| !condemns(pool, levels, subject, i) by {
        assert(review_of(pool, subject, i) is None);
    }
    assert forall|i: int| !commends(pool, levels, subject, threshold, i) by {
        assert(review_of(pool, subject, i) is None);
    }
    assert forall|i: int| !dismissed(pool, levels, subject, i) by {
        assert(review_of(pool, subject, i) is None);
    }
}

/// Whether a proof counts: its signature verifies under the key of the
/// author that its content names.
pub open spec fn counts(made: ProofView) -> bool {
    made.verified_by(made.content.from().id)
}

/// The pool that a list of proofs gives holds the contents of the proofs
/// that count, and nothing else.
pub proof fn lemma_accepted_members(proofs: Seq<ProofView>)
    ensures
        forall|c: ContentView|
            #[trigger] accepted(proofs).contains(c) <==> exists|i: int|
                0 <= i < proofs.len() && counts(#[trigger] proofs[i]) && proofs[i].content == c,
    decreases proofs.len(),
{
    if proofs.len() == 0 {
        assert forall|c: ContentView| !accepted(proofs).contains(c) by {}
    } else {
        let before = proofs.drop_last();
        let last = proofs.last();
        lemma_accepted_members(before);
        assert forall|c: ContentView|
            #[trigger] accepted(proofs).contains(c) <==> exists|i: int|
                0 <= i < proofs.len() && counts(#[trigger] proofs[i]) && proofs[i].content
                    == c by {
            if accepted(proofs).contains(c) {
                let k = choose|k: int| 0 <= k < accepted(proofs).len() && accepted(proofs)[k] == c;
                if counts(last) && k == accepted(before).len() {
                    assert(counts(proofs[proofs.len() - 1]) && proofs[proofs.len() - 1].content
                        == c);
                } else {
                    assert(accepted(before)[k] == c);
                    assert(accepted(before).contains(c));
                    let i = choose|i: int|
                        0 <= i < before.len() && counts(#[trigger] before[i]) && before[i].content
                            == c;
                    assert(counts(proofs[i]) && proofs[i].content == c);
                }
            }
            if exists|i: int|
                0 <= i < proofs.len() && counts(#[trigger] proofs[i]) && proofs[i].content == c {
                let i = choose|i: int|
                    0 <= i < proofs.len() && counts(#[trigger] proofs[i]) && proofs[i].content
                        == c;
                if i == proofs.len() - 1 {
                    assert(accepted(proofs) == accepted(before).push(c));
                    assert(accepted(proofs)[accepted(before).len() as int] == c);
                } else {
                    assert(counts(before[i]) && before[i].content == c);
                    assert(accepted(before).contains(c));
                    let k = choose|k: int|
                        0 <= k < accepted(before).len() && accepted(before)[k] == c;
                    assert(accepted(proofs)[k] == c);
                }
            }
        }
    }
}

/// The order of the proofs does not matter either: a list of proofs and any
/// rearrangement of it give every identity the same effective level, and
/// every subject the same verdict.
pub proof fn lemma_proofs_order_independent(
    a: Seq<ProofView>,
    b: Seq<ProofView>,
    root: Seq<u8>,
    subject: SubjectView,
    threshold: TrustLevel,
)
    requires
        a.to_multiset() == b.to_multiset(),
    ensures
        effective(accepted(a), root) == effective(accepted(b), root),
        resolution(accepted(a), root, subject, threshold) == resolution(
            accepted(b),
            root,
            subject,
            threshold,
        ),
{
    a.to_multiset_ensures();
    b.to_multiset_ensures();
    lemma_accepted_members(a);
    lemma_accepted_members(b);
    let x = accepted(a);
    let y = accepted(b);
    assert forall|k: int| 0 <= k < x.len() implies y.contains(#[trigger] x[k]) by {
        assert(x.contains(x[k]));
        let i = choose|i: int|
            0 <= i < a.len() && counts(#[trigger] a[i]) && a[i].content == x[k];
        assert(a.contains(a[i]));
        assert(b.to_multiset().count(a[i]) > 0);
        assert(b.contains(a[i]));
        let j = choose|j: int| 0 <= j < b.len() && b[j] == a[i];
        assert(counts(b[j]) && b[j].content == x[k]);
    }
    assert forall|k: int| 0 <= k < y.len() implies x.contains(#[trigger] y[k]) by {
        assert(y.contains(y[k]));
        let i = choose|i: int|
            0 <= i < b.len() && counts(#[trigger] b[i]) && b[i].content == y[k];
        assert(b.contains(b[i]));
        assert(a.to_multiset().count(b[i]) > 0);
        assert(a.contains(b[i]));
        let j = choose|j: int| 0 <= j < a.len() && a[j] == b[i];
        assert(counts(a[j]) && a[j].content == y[k]);
    }
    lemma_levels_same(x, y, root, MAX_HOPS as nat);
    lemma_verdict_same(x, y, effective(x, root), subject, threshold);
}

} // verus!
