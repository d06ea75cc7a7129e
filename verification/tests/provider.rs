use termvol::binary64::Binary64;
use termvol::provider::closest_quote;
use termvol::provider::Quote;
use termvol::provider::LARGEST_FINITE_BITS;

fn quote(strike: f64, target: f64, iv_percent: f64) -> Quote {
    Quote {
        distance: Binary64::from_bits((strike - target).abs().to_bits()),
        implied_volatility: Binary64::from_bits(iv_percent.to_bits()),
    }
}

/// The scan that keeps the first quote of least distance among those with a
/// volatility above zero.
fn scan(rows: &[(f64, f64)], target: f64) -> Option<usize> {
    let mut best = None;
    let mut min_diff = f64::MAX;
    for (i, (strike, iv)) in rows.iter().enumerate() {
        if *iv > 0.0 {
            let diff = (strike - target).abs();
            if diff < min_diff {
                min_diff = diff;
                best = Some(i);
            }
        }
    }
    best
}

#[test]
fn the_bound_is_the_largest_finite_number() {
    assert_eq!(f64::MAX.to_bits(), LARGEST_FINITE_BITS);
}

#[test]
fn the_nearest_strike_is_chosen() {
    let chain = vec![
        quote(80.0, 95.0, 41.2),
        quote(90.0, 95.0, 35.5),
        quote(97.5, 95.0, 31.25),
        quote(100.0, 95.0, 29.0),
    ];
    assert_eq!(closest_quote(&chain), Some(2));
}

#[test]
fn the_first_of_two_equally_near_strikes_is_chosen() {
    let chain = vec![
        quote(85.0, 95.0, 40.0),
        quote(90.0, 95.0, 35.5),
        quote(100.0, 95.0, 29.0),
        quote(105.0, 95.0, 27.0),
    ];
    assert_eq!(closest_quote(&chain), Some(1));
    let reversed: Vec<Quote> = chain.iter().rev().cloned().collect();
    assert_eq!(closest_quote(&reversed), Some(1));
}

#[test]
fn quotes_without_volatility_are_passed_over() {
    let chain = vec![
        quote(95.0, 95.0, 0.0),
        quote(94.0, 95.0, -3.0),
        quote(96.0, 95.0, f64::NAN),
        quote(120.0, 95.0, 22.0),
    ];
    assert_eq!(closest_quote(&chain), Some(3));
}

#[test]
fn a_chain_without_usable_quote_gives_none() {
    assert_eq!(closest_quote(&Vec::new()), None);
    let chain = vec![
        quote(95.0, 95.0, 0.0),
        quote(f64::NAN, 95.0, 30.0),
        quote(f64::INFINITY, 95.0, 30.0),
        quote(f64::MAX, 0.0, 30.0),
    ];
    assert_eq!(closest_quote(&chain), None);
}

#[test]
fn the_choice_is_that_of_a_plain_scan() {
    let mut state: u64 = 2024;
    for round in 0..500 {
        let mut rows: Vec<(f64, f64)> = Vec::new();
        for _ in 0..(round % 23) {
            state = state.wrapping_mul(6364136223846793005).wrapping_add(1442695040888963407);
            let strike = 50.0 + ((state >> 40) % 40) as f64 * 2.5;
            let iv = ((state >> 20) % 5) as f64 * 11.5 - 11.5;
            rows.push((strike, iv));
        }
        let chain: Vec<Quote> = rows.iter().map(|(k, iv)| quote(*k, 95.0, *iv)).collect();
        assert_eq!(closest_quote(&chain), scan(&rows, 95.0), "{:?}", rows);
    }
}
