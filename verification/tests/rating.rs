use leelo::outcome::MatchResult;
use leelo::rating::{Rating, INITIAL_RATING_BITS, SIGN_BIT};

fn rating(value: f64) -> Rating {
    Rating::from_bits(value.to_bits())
}

#[test]
fn a_new_player_starts_at_one_thousand() {
    assert_eq!(f64::from_bits(Rating::initial().to_bits()), 1000.0);
    assert_eq!(INITIAL_RATING_BITS, 1000.0f64.to_bits());
    assert_eq!(Rating::initial(), rating(1000.0));
}

#[test]
fn bits_go_in_and_come_out() {
    for bits in [0u64, 1, SIGN_BIT, u64::MAX, INITIAL_RATING_BITS, 1020.0f64.to_bits()] {
        assert_eq!(Rating::from_bits(bits).to_bits(), bits);
        assert_eq!(Rating::from_bits(bits).bits, bits);
    }
}

#[test]
fn the_order_of_ratings_is_the_order_of_numbers() {
    let values = [
        f64::NEG_INFINITY,
        f64::MIN,
        -1020.5,
        -1000.0,
        -1.0,
        -f64::MIN_POSITIVE,
        -5e-324,
        -0.0,
        0.0,
        5e-324,
        f64::MIN_POSITIVE,
        0.5,
        1.0,
        979.9999999999999,
        980.0,
        1000.0,
        1000.0000000000001,
        1020.0,
        1e300,
        f64::MAX,
        f64::INFINITY,
    ];
    for a in values {
        for b in values {
            assert_eq!(rating(a).exceeds(rating(b)), a > b, "{} > {}", a, b);
            assert_eq!(rating(a).ties_with(rating(b)), a == b, "{} == {}", a, b);
        }
    }
}

#[test]
fn the_two_zeros_tie() {
    assert!(rating(0.0).ties_with(rating(-0.0)));
    assert!(!rating(0.0).exceeds(rating(-0.0)));
    assert!(!rating(-0.0).exceeds(rating(0.0)));
    assert_ne!(rating(0.0), rating(-0.0));
}

#[test]
fn what_is_not_a_number_ranks_beyond_infinity() {
    let nan = rating(f64::NAN);
    assert!(f64::NAN.is_sign_positive());
    assert!(nan.exceeds(rating(f64::INFINITY)));
    assert!(nan.ties_with(nan));
    let negative = Rating::from_bits(f64::NAN.to_bits() | SIGN_BIT);
    assert!(rating(f64::NEG_INFINITY).exceeds(negative));
}

#[test]
fn every_game_hands_out_one_point() {
    assert_eq!(MatchResult::WhiteWin.half_points(), (2, 0));
    assert_eq!(MatchResult::BlackWin.half_points(), (0, 2));
    assert_eq!(MatchResult::Draw.half_points(), (1, 1));
    for result in [MatchResult::WhiteWin, MatchResult::BlackWin, MatchResult::Draw] {
        let (white, black) = result.half_points();
        assert_eq!(white + black, 2);
    }
}
