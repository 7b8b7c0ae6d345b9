use backend_rs::score::{distinct_ids, highest_score, score_ordinal, RelevanceHit, SIGN_BIT};

fn hit(id: i32, score: f64) -> RelevanceHit {
    RelevanceHit { id, score: score_ordinal(score.to_bits()) }
}

#[test]
fn ordinals_of_given_patterns() {
    assert_eq!(score_ordinal(0), 0x8000_0000_0000_0000);
    assert_eq!(score_ordinal(1), 0x8000_0000_0000_0001);
    assert_eq!(score_ordinal(SIGN_BIT - 1), u64::MAX);
    assert_eq!(score_ordinal(SIGN_BIT), 0x8000_0000_0000_0000);
    assert_eq!(score_ordinal(SIGN_BIT + 1), 0x7fff_ffff_ffff_fffe);
    assert_eq!(score_ordinal(u64::MAX), 0);
    assert_eq!(score_ordinal(1.0f64.to_bits()), 0xbff0_0000_0000_0000);
}

#[test]
fn ordinals_rise_with_the_number() {
    let rising = vec![
        f64::NEG_INFINITY, -1.0e300, -3.5, -1.0, -1.0e-300, -5.0e-324, 0.0, 5.0e-324, 1.0e-300, 0.5, 0.9, 1.0,
        1.1, 3.2, 64.0, 1.0e300, f64::INFINITY,
    ];
    for pair in rising.windows(2) {
        assert!(
            score_ordinal(pair[0].to_bits()) < score_ordinal(pair[1].to_bits()),
            "{} and {}",
            pair[0],
            pair[1]
        );
    }
}

#[test]
fn both_zeros_have_one_ordinal() {
    assert_eq!((-0.0f64).to_bits(), SIGN_BIT);
    assert_eq!(score_ordinal((-0.0f64).to_bits()), score_ordinal(0.0f64.to_bits()));
    assert!(score_ordinal((-5.0e-324f64).to_bits()) < score_ordinal((-0.0f64).to_bits()));
    assert!(score_ordinal((-0.0f64).to_bits()) < score_ordinal(5.0e-324f64.to_bits()));
}

#[test]
fn ordinals_are_ordered_as_the_numbers_are() {
    let numbers = vec![-2.5, -0.0, 0.0, 1.0e-310, 0.9, 1.1, -1.0e-310, 3.2, -7.0, 64.0];
    for a in &numbers {
        for b in &numbers {
            let by_ordinal = score_ordinal(f64::to_bits(*a)).cmp(&score_ordinal(f64::to_bits(*b)));
            assert_eq!(Some(by_ordinal), a.partial_cmp(b), "{} and {}", a, b);
        }
    }
}

#[test]
fn the_highest_score_of_an_identifier_counts() {
    let hits = vec![hit(5, 0.9), hit(7, 3.2), hit(5, 2.5), hit(5, 1.0)];
    assert_eq!(highest_score(&hits, 5), Some(score_ordinal(2.5f64.to_bits())));
    assert_eq!(highest_score(&hits, 7), Some(score_ordinal(3.2f64.to_bits())));
    assert_eq!(highest_score(&hits, 9), None);
    assert_eq!(highest_score(&Vec::new(), 5), None);
}

#[test]
fn a_later_lower_score_does_not_replace_a_higher_one() {
    let hits = vec![hit(1, 4.0), hit(1, 0.5)];
    assert_eq!(highest_score(&hits, 1), Some(score_ordinal(4.0f64.to_bits())));
    let hits = vec![hit(1, 0.5), hit(1, 4.0)];
    assert_eq!(highest_score(&hits, 1), Some(score_ordinal(4.0f64.to_bits())));
}

#[test]
fn each_identifier_is_named_once_in_order_of_appearance() {
    let hits = vec![hit(5, 0.9), hit(7, 3.2), hit(5, 2.5), hit(9, 1.1), hit(7, 0.1)];
    assert_eq!(distinct_ids(&hits), vec![5, 7, 9]);
    assert_eq!(distinct_ids(&Vec::new()), Vec::<i32>::new());
}
