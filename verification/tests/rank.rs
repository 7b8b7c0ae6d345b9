use backend_rs::rank::rank;
use backend_rs::release::FlakeRelease;
use backend_rs::score::{score_ordinal, RelevanceHit};

fn hit(id: i32, score: f64) -> RelevanceHit {
    RelevanceHit { id, score: score_ordinal(score.to_bits()) }
}

fn row(id: i32) -> FlakeRelease {
    FlakeRelease {
        id,
        owner: format!("owner{}", id),
        repo: format!("repo{}", id),
        version: String::from("1.0"),
        description: String::new(),
        created_at: 1_720_000_000_000_000 + id as i64,
    }
}

fn tagged(id: i32, version: &str) -> FlakeRelease {
    FlakeRelease { version: version.to_string(), ..row(id) }
}

fn ids(rows: &[FlakeRelease]) -> Vec<i32> {
    rows.iter().map(|row| row.id).collect()
}

#[test]
fn rows_come_back_from_the_best_match_down() {
    let hits = vec![hit(5, 0.9), hit(7, 3.2), hit(9, 1.1)];
    let ranked = rank(&hits, vec![row(5), row(7), row(9)]);
    assert_eq!(ids(&ranked), vec![7, 9, 5]);
}

#[test]
fn the_order_of_the_store_does_not_matter() {
    let hits = vec![hit(5, 0.9), hit(7, 3.2), hit(9, 1.1)];
    assert_eq!(ids(&rank(&hits, vec![row(9), row(7), row(5)])), vec![7, 9, 5]);
    assert_eq!(ids(&rank(&hits, vec![row(7), row(5), row(9)])), vec![7, 9, 5]);
    assert_eq!(ids(&rank(&hits, vec![row(5), row(9), row(7)])), vec![7, 9, 5]);
    assert_eq!(ids(&rank(&hits, vec![row(9), row(5), row(7)])), vec![7, 9, 5]);
}

#[test]
fn a_hit_without_a_row_is_left_out() {
    let hits = vec![hit(5, 0.9), hit(7, 3.2), hit(9, 1.1)];
    let ranked = rank(&hits, vec![row(7), row(5)]);
    assert_eq!(ids(&ranked), vec![7, 5]);
    assert_eq!(ranked.len(), 2);
}

#[test]
fn a_row_without_a_hit_is_left_out() {
    let hits = vec![hit(5, 0.9), hit(7, 3.2)];
    let ranked = rank(&hits, vec![row(1), row(5), row(2), row(7), row(3)]);
    assert_eq!(ids(&ranked), vec![7, 5]);
}

#[test]
fn equal_scores_go_by_rising_identifier() {
    let hits = vec![hit(30, 1.5), hit(10, 1.5), hit(20, 1.5), hit(40, 2.0), hit(5, 1.0)];
    let ranked = rank(&hits, vec![row(30), row(5), row(20), row(40), row(10)]);
    assert_eq!(ids(&ranked), vec![40, 10, 20, 30, 5]);
}

#[test]
fn of_two_hits_for_one_release_the_higher_score_counts() {
    let hits = vec![hit(1, 5.0), hit(2, 3.0), hit(1, 1.0)];
    assert_eq!(ids(&rank(&hits, vec![row(1), row(2)])), vec![1, 2]);
    let hits = vec![hit(1, 1.0), hit(2, 3.0), hit(1, 5.0)];
    assert_eq!(ids(&rank(&hits, vec![row(1), row(2)])), vec![1, 2]);
    let hits = vec![hit(1, 1.0), hit(2, 3.0), hit(1, 2.0)];
    assert_eq!(ids(&rank(&hits, vec![row(1), row(2)])), vec![2, 1]);
}

#[test]
fn rows_that_tie_keep_the_order_in_which_they_came() {
    let hits = vec![hit(1, 1.0), hit(2, 2.0)];
    let ranked = rank(&hits, vec![tagged(1, "a"), tagged(2, "x"), tagged(1, "b"), tagged(1, "c")]);
    let versions: Vec<&str> = ranked.iter().map(|row| row.version.as_str()).collect();
    assert_eq!(versions, vec!["x", "a", "b", "c"]);
}

#[test]
fn nothing_in_nothing_out() {
    assert!(rank(&vec![hit(1, 1.0)], vec![]).is_empty());
    assert!(rank(&vec![], vec![row(1), row(2)]).is_empty());
    assert!(rank(&vec![], vec![]).is_empty());
}

#[test]
fn the_rows_themselves_are_handed_on() {
    let hits = vec![hit(2, 1.0), hit(1, 9.0)];
    let ranked = rank(&hits, vec![row(2), row(1)]);
    assert_eq!(ranked[0].owner, "owner1");
    assert_eq!(ranked[0].repo, "repo1");
    assert_eq!(ranked[0].created_at, 1_720_000_000_000_001);
    assert_eq!(ranked[1].owner, "owner2");
}

#[test]
fn negative_identifiers_and_small_scores_are_ordered_too() {
    let hits = vec![hit(-3, 0.0), hit(4, 0.0), hit(-7, 1.0e-9)];
    assert_eq!(ids(&rank(&hits, vec![row(4), row(-3), row(-7)])), vec![-7, -3, 4]);
}

#[test]
fn zero_and_negative_zero_tie_and_go_by_identifier() {
    let hits = vec![hit(5, 0.0), hit(3, -0.0)];
    assert_eq!(ids(&rank(&hits, vec![row(5), row(3)])), vec![3, 5]);
    let hits = vec![hit(3, 0.0), hit(5, -0.0)];
    assert_eq!(ids(&rank(&hits, vec![row(5), row(3)])), vec![3, 5]);
}
