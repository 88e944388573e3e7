use crev_data::wot::{effective_levels, relax, resolve, verdict, LevelMap, Verdict, MAX_HOPS};
use crev_data::{Content, Date, PubId, Review, Subject, Trust, TrustLevel};

fn id(n: u8) -> PubId {
    PubId::new(vec![n; 32])
}

fn date() -> Date {
    Date::parse("2018-09-20T22:12:01-07:00").unwrap()
}

fn trust(from: u8, to: &[u8], level: TrustLevel) -> Content {
    let ids = to.iter().map(|n| id(*n)).collect();
    Content::Trust(Trust::new(date(), id(from), ids, level, String::new()))
}

fn subject(n: u8) -> Subject {
    Subject { digest: vec![n; 64], revision: format!("rev{}", n) }
}

fn review(from: u8, about: u8, rating: TrustLevel) -> Content {
    Content::Review(Review::new(date(), id(from), subject(about), rating, String::new()))
}

const R: u8 = 1;
const A: u8 = 2;
const B: u8 = 3;
const C: u8 = 4;
const D: u8 = 5;
const E: u8 = 6;
const S: u8 = 100;

fn level(pool: &Vec<Content>, who: u8) -> TrustLevel {
    effective_levels(&id(R), pool).level(&id(who))
}

#[test]
fn max_hops_is_three() {
    assert_eq!(MAX_HOPS, 3);
}

#[test]
fn root_trusts_itself_at_high() {
    assert_eq!(level(&vec![], R), TrustLevel::High);
    assert_eq!(level(&vec![trust(A, &[R], TrustLevel::Distrust)], R), TrustLevel::High);
    assert_eq!(level(&vec![trust(R, &[R], TrustLevel::Distrust)], R), TrustLevel::High);
}

#[test]
fn strangers_stand_at_neutral() {
    assert_eq!(level(&vec![], A), TrustLevel::Neutral);
    assert_eq!(level(&vec![trust(A, &[B], TrustLevel::High)], B), TrustLevel::Neutral);
    assert_eq!(level(&vec![trust(A, &[B], TrustLevel::Distrust)], B), TrustLevel::Neutral);
}

#[test]
fn direct_trust_is_the_stated_level() {
    for l in [TrustLevel::High, TrustLevel::Medium, TrustLevel::Low, TrustLevel::Neutral] {
        assert_eq!(level(&vec![trust(R, &[A], l)], A), l);
    }
    assert_eq!(level(&vec![trust(R, &[A], TrustLevel::Distrust)], A), TrustLevel::Distrust);
}

#[test]
fn veto_dominance() {
    let pool = vec![
        trust(R, &[A], TrustLevel::Medium),
        trust(A, &[B], TrustLevel::High),
        trust(R, &[B], TrustLevel::Distrust),
    ];
    assert_eq!(level(&pool, A), TrustLevel::Medium);
    assert_eq!(level(&pool, B), TrustLevel::Distrust);
}

#[test]
fn veto_of_any_vouching_identity_holds() {
    let pool = vec![
        trust(R, &[A], TrustLevel::Low),
        trust(R, &[B], TrustLevel::High),
        trust(A, &[B], TrustLevel::Distrust),
    ];
    assert_eq!(level(&pool, B), TrustLevel::Distrust);
}

#[test]
fn veto_of_a_neutral_identity_counts_for_nothing() {
    let pool = vec![
        trust(R, &[A], TrustLevel::Neutral),
        trust(R, &[B], TrustLevel::High),
        trust(A, &[B], TrustLevel::Distrust),
    ];
    assert_eq!(level(&pool, B), TrustLevel::High);
}

#[test]
fn no_amplification() {
    let pool = vec![trust(R, &[A], TrustLevel::Low), trust(A, &[B], TrustLevel::High)];
    assert_eq!(level(&pool, A), TrustLevel::Low);
    assert_eq!(level(&pool, B), TrustLevel::Low);
    let pool = vec![trust(R, &[A], TrustLevel::High), trust(A, &[B], TrustLevel::Medium)];
    assert_eq!(level(&pool, B), TrustLevel::Medium);
}

#[test]
fn the_best_path_counts() {
    let pool = vec![
        trust(R, &[A], TrustLevel::Low),
        trust(R, &[B], TrustLevel::High),
        trust(A, &[C], TrustLevel::High),
        trust(B, &[C], TrustLevel::Medium),
    ];
    assert_eq!(level(&pool, C), TrustLevel::Medium);
}

#[test]
fn a_statement_can_name_several() {
    let pool = vec![trust(R, &[A, B, C], TrustLevel::Medium)];
    assert_eq!(level(&pool, A), TrustLevel::Medium);
    assert_eq!(level(&pool, B), TrustLevel::Medium);
    assert_eq!(level(&pool, C), TrustLevel::Medium);
}

#[test]
fn trust_reaches_three_hops_and_no_further() {
    let pool = vec![
        trust(R, &[A], TrustLevel::High),
        trust(A, &[B], TrustLevel::High),
        trust(B, &[C], TrustLevel::High),
        trust(C, &[D], TrustLevel::High),
        trust(D, &[E], TrustLevel::High),
    ];
    assert_eq!(level(&pool, A), TrustLevel::High);
    assert_eq!(level(&pool, B), TrustLevel::High);
    assert_eq!(level(&pool, C), TrustLevel::High);
    assert_eq!(level(&pool, D), TrustLevel::Neutral);
    assert_eq!(level(&pool, E), TrustLevel::Neutral);
}

#[test]
fn cycles_end() {
    let pool = vec![
        trust(R, &[A], TrustLevel::Medium),
        trust(A, &[B], TrustLevel::High),
        trust(B, &[A], TrustLevel::High),
        trust(B, &[R], TrustLevel::Low),
        trust(A, &[A], TrustLevel::High),
    ];
    assert_eq!(level(&pool, R), TrustLevel::High);
    assert_eq!(level(&pool, A), TrustLevel::Medium);
    assert_eq!(level(&pool, B), TrustLevel::Medium);
}

#[test]
fn a_distrusted_identity_does_not_speak() {
    let pool = vec![
        trust(R, &[A], TrustLevel::High),
        trust(R, &[A], TrustLevel::Distrust),
        trust(A, &[B], TrustLevel::High),
        trust(A, &[C], TrustLevel::Distrust),
    ];
    assert_eq!(level(&pool, A), TrustLevel::Distrust);
    assert_eq!(level(&pool, B), TrustLevel::Neutral);
    assert_eq!(level(&pool, C), TrustLevel::Neutral);
}

#[test]
fn mutual_distrust_fells_both() {
    let pool = vec![
        trust(R, &[A, B], TrustLevel::High),
        trust(A, &[B], TrustLevel::Distrust),
        trust(B, &[A], TrustLevel::Distrust),
    ];
    assert_eq!(level(&pool, A), TrustLevel::Distrust);
    assert_eq!(level(&pool, B), TrustLevel::Distrust);
}

#[test]
fn addresses_do_not_matter() {
    let with_url = PubId::with_url(vec![A; 32], "https://example.com/a".to_string());
    let pool = vec![Content::Trust(Trust::new(
        date(),
        id(R),
        vec![with_url],
        TrustLevel::Medium,
        String::new(),
    ))];
    assert_eq!(level(&pool, A), TrustLevel::Medium);
    assert!(id(A) == PubId::with_url(vec![A; 32], "x".to_string()));
    assert!(id(A) != id(B));
}

fn permutations(n: usize) -> Vec<Vec<usize>> {
    if n == 0 {
        return vec![vec![]];
    }
    let mut out = Vec::new();
    for p in permutations(n - 1) {
        for at in 0..n {
            let mut q = p.clone();
            q.insert(at, n - 1);
            out.push(q);
        }
    }
    out
}

#[test]
fn order_independence() {
    let pool = vec![
        trust(R, &[A], TrustLevel::Medium),
        trust(A, &[B], TrustLevel::High),
        trust(R, &[C], TrustLevel::Low),
        trust(C, &[B], TrustLevel::Distrust),
        trust(B, &[D], TrustLevel::High),
        review(D, S, TrustLevel::High),
        review(B, S, TrustLevel::Low),
    ];
    let levels: Vec<TrustLevel> = (1..=6).map(|n| level(&pool, n)).collect();
    let verdicts: Vec<Verdict> = [TrustLevel::Low, TrustLevel::Medium, TrustLevel::High]
        .iter()
        .map(|t| resolve(&id(R), &pool, &subject(S), *t))
        .collect();
    let all = permutations(pool.len());
    assert_eq!(all.len(), 5040);
    for order in all {
        let shuffled: Vec<Content> = order.iter().map(|k| pool[*k].clone()).collect();
        let got: Vec<TrustLevel> = (1..=6).map(|n| level(&shuffled, n)).collect();
        assert_eq!(got, levels);
        let got: Vec<Verdict> = [TrustLevel::Low, TrustLevel::Medium, TrustLevel::High]
            .iter()
            .map(|t| resolve(&id(R), &shuffled, &subject(S), *t))
            .collect();
        assert_eq!(got, verdicts);
    }
}

#[test]
fn end_to_end_scenario() {
    let mut pool = vec![trust(R, &[A], TrustLevel::Medium), review(A, S, TrustLevel::Medium)];
    assert_eq!(resolve(&id(R), &pool, &subject(S), TrustLevel::Medium), Verdict::Verified);
    assert_eq!(resolve(&id(R), &pool, &subject(S), TrustLevel::High), Verdict::Insufficient);
    pool.push(trust(R, &[A], TrustLevel::Distrust));
    assert_eq!(resolve(&id(R), &pool, &subject(S), TrustLevel::Medium), Verdict::Distrusted);
    assert_eq!(resolve(&id(R), &pool, &subject(S), TrustLevel::High), Verdict::Distrusted);
}

#[test]
fn no_reviews_is_insufficient() {
    assert_eq!(resolve(&id(R), &vec![], &subject(S), TrustLevel::Low), Verdict::Insufficient);
    let pool = vec![trust(R, &[A], TrustLevel::High), review(A, 7, TrustLevel::High)];
    assert_eq!(resolve(&id(R), &pool, &subject(S), TrustLevel::Low), Verdict::Insufficient);
}

#[test]
fn revision_and_digest_both_name_the_subject() {
    let pool = vec![trust(R, &[A], TrustLevel::High), review(A, S, TrustLevel::High)];
    let other_revision = Subject { digest: vec![S; 64], revision: "other".to_string() };
    let other_digest = Subject { digest: vec![0; 64], revision: format!("rev{}", S) };
    assert_eq!(resolve(&id(R), &pool, &other_revision, TrustLevel::Low), Verdict::Insufficient);
    assert_eq!(resolve(&id(R), &pool, &other_digest, TrustLevel::Low), Verdict::Insufficient);
    assert_eq!(resolve(&id(R), &pool, &subject(S), TrustLevel::Low), Verdict::Verified);
}

#[test]
fn a_vouching_identity_can_veto_the_subject() {
    let pool = vec![
        trust(R, &[A, B], TrustLevel::High),
        review(A, S, TrustLevel::High),
        review(B, S, TrustLevel::Distrust),
    ];
    assert_eq!(resolve(&id(R), &pool, &subject(S), TrustLevel::Low), Verdict::Distrusted);
    let pool = vec![
        trust(R, &[A], TrustLevel::High),
        review(A, S, TrustLevel::High),
        review(B, S, TrustLevel::Distrust),
    ];
    assert_eq!(resolve(&id(R), &pool, &subject(S), TrustLevel::Low), Verdict::Verified);
}

#[test]
fn reviews_by_the_distrusted_alone_are_distrusted() {
    let pool = vec![trust(R, &[A], TrustLevel::Distrust), review(A, S, TrustLevel::High)];
    assert_eq!(resolve(&id(R), &pool, &subject(S), TrustLevel::Low), Verdict::Distrusted);
    let pool = vec![
        trust(R, &[A], TrustLevel::Distrust),
        review(A, S, TrustLevel::High),
        review(B, S, TrustLevel::Neutral),
    ];
    assert_eq!(resolve(&id(R), &pool, &subject(S), TrustLevel::Low), Verdict::Insufficient);
}

#[test]
fn the_root_reviews_too() {
    let pool = vec![review(R, S, TrustLevel::High)];
    assert_eq!(resolve(&id(R), &pool, &subject(S), TrustLevel::High), Verdict::Verified);
    let pool = vec![review(R, S, TrustLevel::Distrust), review(A, S, TrustLevel::High)];
    assert_eq!(resolve(&id(R), &pool, &subject(S), TrustLevel::Low), Verdict::Distrusted);
}

#[test]
fn level_map_keeps_one_entry_each() {
    let mut map = LevelMap::rooted(&[R; 32]);
    assert_eq!(map.len(), 1);
    assert_eq!(map.get(&[R; 32]), TrustLevel::High);
    assert_eq!(map.get(&[A; 32]), TrustLevel::Neutral);
    map.set(&[A; 32], TrustLevel::Low);
    map.set(&[A; 32], TrustLevel::Medium);
    map.set(&[B; 32], TrustLevel::Distrust);
    assert_eq!(map.len(), 3);
    assert_eq!(map.get(&[A; 32]), TrustLevel::Medium);
    assert_eq!(map.level(&id(B)), TrustLevel::Distrust);
    let copy = map.clone();
    assert_eq!(copy.len(), 3);
    assert_eq!(copy.get(&[A; 32]), TrustLevel::Medium);
    let entries = copy.entries();
    assert_eq!(entries.len(), 3);
    assert_eq!(entries[0].id, vec![R; 32]);
    assert_eq!(entries[0].level, TrustLevel::High);
    assert_eq!(entries[1].id, vec![A; 32]);
    assert_eq!(entries[1].level, TrustLevel::Medium);
    assert_eq!(entries[2].id, vec![B; 32]);
    assert_eq!(entries[2].level, TrustLevel::Distrust);
}

#[test]
fn effective_levels_list_everyone_who_is_rated() {
    let pool = vec![
        trust(R, &[A], TrustLevel::Medium),
        trust(A, &[B], TrustLevel::High),
        trust(R, &[C], TrustLevel::Distrust),
    ];
    let levels = effective_levels(&id(R), &pool);
    let mut listed: Vec<(u8, TrustLevel)> =
        levels.entries().iter().map(|e| (e.id[0], e.level)).collect();
    listed.retain(|e| e.1 != TrustLevel::Neutral);
    listed.sort_by_key(|e| e.0);
    assert_eq!(
        listed,
        vec![
            (R, TrustLevel::High),
            (A, TrustLevel::Medium),
            (B, TrustLevel::Medium),
            (C, TrustLevel::Distrust)
        ]
    );
}

#[test]
fn one_hop_at_a_time() {
    let pool = vec![trust(R, &[A], TrustLevel::High), trust(A, &[B], TrustLevel::Medium)];
    let start = LevelMap::rooted(&[R; 32]);
    let one = relax(&id(R), &pool, &start);
    assert_eq!(one.level(&id(A)), TrustLevel::High);
    assert_eq!(one.level(&id(B)), TrustLevel::Neutral);
    let two = relax(&id(R), &pool, &one);
    assert_eq!(two.level(&id(B)), TrustLevel::Medium);
    assert_eq!(verdict(&two, &pool, &subject(S), TrustLevel::Low), Verdict::Insufficient);
}
