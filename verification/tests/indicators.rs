use upbit::deviation::{isqrt, standard_deviation};
use upbit::divergence::{
    breaking_peak, breaking_peak_of, divergence, divergence_of, extremum_at, find_latest_extremum,
    RsiDivergenceCheckMode,
};
use upbit::error::IndicatorError;
use upbit::ewm::{ewm_mean, ewm_mean_series, ewm_states};
use upbit::rsi::{moves, rsi, rsi_series, strength_of, RSI_MAX, RSI_NOISE_FLOOR, RSI_UNRELIABLE};
use upbit::series::diff;

fn falling_then_rallying() -> Vec<u64> {
    let mut prices: Vec<u64> = Vec::new();
    let mut price: u64 = 5000;
    prices.push(price);
    for _ in 0..19 {
        price -= 60;
        prices.push(price);
    }
    for _ in 0..18 {
        price += 60;
        prices.push(price);
    }
    price -= 5;
    prices.push(price);
    price += 8;
    prices.push(price);
    price -= 4;
    prices.push(price);
    prices
}

fn rising_then_sliding() -> Vec<u64> {
    let mut prices: Vec<u64> = Vec::new();
    let mut price: u64 = 1000;
    prices.push(price);
    for _ in 0..19 {
        price += 60;
        prices.push(price);
    }
    for _ in 0..18 {
        price -= 60;
        prices.push(price);
    }
    price += 5;
    prices.push(price);
    price -= 8;
    prices.push(price);
    price += 4;
    prices.push(price);
    prices
}

#[test]
fn diff_drops_the_leading_entry() {
    assert_eq!(diff(&vec![10, 13, 9, 9]), vec![3i128, -4, 0]);
    assert_eq!(diff(&vec![7]), Vec::<i128>::new());
    assert_eq!(diff(&Vec::new()), Vec::<i128>::new());
    assert_eq!(diff(&vec![u64::MAX, 0]), vec![-(u64::MAX as i128)]);
}

#[test]
fn ewm_mean_is_not_ready_before_min_periods() {
    let series: Vec<u64> = vec![100; 13];
    assert_eq!(ewm_mean(&series, 13, 14), Err(IndicatorError::NotReady));
    assert_eq!(ewm_mean(&[], 13, 0), Err(IndicatorError::NotReady));
    assert_eq!(ewm_mean(&[], 13, 14), Err(IndicatorError::NotReady));
    let ready: Vec<u64> = vec![100; 14];
    assert_eq!(ewm_mean(&ready, 13, 14), Ok(100));
}

#[test]
fn ewm_mean_of_a_constant_series_is_the_constant() {
    for len in 1..60usize {
        let series: Vec<u64> = vec![7; len];
        assert_eq!(ewm_mean(&series, 13, 1), Ok(7));
        assert_eq!(*ewm_states(&series, 13).last().unwrap(), 7_000_000u128);
    }
    let large: Vec<u64> = vec![u64::MAX; 40];
    assert_eq!(ewm_mean(&large, 65535, 14), Ok(u64::MAX));
    assert_eq!(ewm_mean(&large, 0, 14), Ok(u64::MAX));
}

#[test]
fn ewm_mean_exact_value() {
    let series: Vec<u64> =
        vec![100, 102, 101, 105, 110, 108, 107, 111, 115, 120, 118, 117, 121, 125, 130];
    assert_eq!(ewm_mean(&series, 13, 14), Ok(115));
    let states = ewm_states(&[10, 20], 1);
    assert_eq!(states, vec![10_000_000u128, 16_666_666]);
    assert_eq!(ewm_mean(&[10, 20], 1, 2), Ok(16));
    assert_eq!(ewm_mean(&[10, 20], 0, 1), Ok(20));
}

#[test]
fn ewm_mean_series_marks_the_warm_up() {
    let out = ewm_mean_series(&[4, 4, 4, 4], 13, 3);
    assert_eq!(out, vec![None, None, Some(4), Some(4)]);
    let all = ewm_mean_series(&[4, 8], 1, 0);
    assert_eq!(all, vec![Some(4), Some(6)]);
}

#[test]
fn moves_split_gains_and_losses() {
    let (up, down) = moves(&[10, 13, 9, 9]);
    assert_eq!(up, vec![3, 0, 0]);
    assert_eq!(down, vec![0, 4, 0]);
}

#[test]
fn strength_formula() {
    assert_eq!(strength_of(1, 1), 50_000_000);
    assert_eq!(strength_of(3, 1), 75_000_000);
    assert_eq!(strength_of(5, 0), RSI_MAX);
    assert_eq!(strength_of(1, 9), RSI_NOISE_FLOOR);
    assert_eq!(strength_of(1, 10), RSI_UNRELIABLE);
    assert_eq!(strength_of(0, 5), RSI_UNRELIABLE);
    assert_eq!(strength_of(0, 0), RSI_UNRELIABLE);
}

#[test]
fn rsi_is_not_ready_before_the_warm_up() {
    let short: Vec<u64> = (0..14u64).map(|i| 100 + i).collect();
    assert_eq!(rsi(&short, 13, 14), Err(IndicatorError::NotReady));
    assert_eq!(rsi(&[], 13, 14), Err(IndicatorError::NotReady));
    assert_eq!(rsi(&[5], 13, 0), Err(IndicatorError::NotReady));
    let ready: Vec<u64> = (0..15u64).map(|i| 100 + i).collect();
    assert_eq!(rsi(&ready, 13, 14), Ok(RSI_MAX));
    let series = rsi_series(&ready, 13, 14);
    assert_eq!(series.len(), 15);
    assert!(series[..14].iter().all(|v| v.is_none()));
    assert_eq!(series[14], Some(RSI_MAX));
}

#[test]
fn rsi_exact_values() {
    let series: Vec<u64> =
        vec![100, 102, 101, 105, 110, 108, 107, 111, 115, 120, 118, 117, 121, 125, 130, 128];
    let out = rsi_series(&series, 13, 14);
    assert_eq!(out[14], Some(85_623_094));
    assert_eq!(out[15], Some(79_843_438));
    assert_eq!(rsi(&series, 13, 14), Ok(79_843_438));
}

#[test]
fn rsi_stays_in_range() {
    let mut seed: u64 = 12345;
    let mut series: Vec<u64> = Vec::new();
    for _ in 0..300 {
        seed = seed.wrapping_mul(6364136223846793005).wrapping_add(1442695040888963407);
        series.push(1000 + (seed >> 40) % 500);
    }
    for value in rsi_series(&series, 13, 14).into_iter().flatten() {
        assert!(value == RSI_UNRELIABLE || (RSI_NOISE_FLOOR <= value && value <= RSI_MAX));
    }
    let falling: Vec<u64> = (0..40u64).map(|i| 5000 - 10 * i).collect();
    assert_eq!(rsi(&falling, 13, 14), Ok(RSI_UNRELIABLE));
    let flat: Vec<u64> = vec![42; 40];
    assert_eq!(rsi(&flat, 13, 14), Ok(RSI_UNRELIABLE));
}

#[test]
fn isqrt_rounds_down() {
    assert_eq!(isqrt(0), 0);
    assert_eq!(isqrt(1), 1);
    assert_eq!(isqrt(15), 3);
    assert_eq!(isqrt(16), 4);
    assert_eq!(isqrt(u128::MAX), u64::MAX);
}

#[test]
fn standard_deviation_values() {
    assert_eq!(standard_deviation(&[2, 4, 4, 4, 5, 5, 7, 9]), Ok(2));
    assert_eq!(standard_deviation(&[1, 2, 3, 4]), Ok(1));
    assert_eq!(standard_deviation(&[5]), Ok(0));
    assert_eq!(standard_deviation(&[0, 100]), Ok(50));
    assert_eq!(standard_deviation(&[]), Err(IndicatorError::NotReady));
}

#[test]
fn standard_deviation_gives_up_on_overflow() {
    assert_eq!(standard_deviation(&[u64::MAX, u64::MAX]), Err(IndicatorError::OutOfRange));
    assert_eq!(standard_deviation(&[u64::MAX]), Ok(0));
    assert_eq!(standard_deviation(&[1u64 << 63, 0]), Ok(1u64 << 62));
}

#[test]
fn divergence_at_two_descending_peaks() {
    let prices = falling_then_rallying();
    let index = rsi_series(&prices, 13, 14);
    assert_eq!(index[37], Some(78_729_866));
    assert_eq!(index[39], Some(78_446_826));
    assert!(extremum_at(RsiDivergenceCheckMode::Peak, &index, 70_000_000, 37));
    assert!(extremum_at(RsiDivergenceCheckMode::Peak, &index, 70_000_000, 39));
    assert!(!extremum_at(RsiDivergenceCheckMode::Peak, &index, 70_000_000, 38));
    assert_eq!(find_latest_extremum(RsiDivergenceCheckMode::Peak, &index, 70_000_000, 41), Some(39));
    assert_eq!(find_latest_extremum(RsiDivergenceCheckMode::Peak, &index, 70_000_000, 39), Some(37));
    assert_eq!(find_latest_extremum(RsiDivergenceCheckMode::Peak, &index, 70_000_000, 37), None);
    assert!(divergence(&prices, RsiDivergenceCheckMode::Peak, 70_000_000, 5));
    assert!(divergence(&prices, RsiDivergenceCheckMode::Peak, 70_000_000, 4));
    assert!(!divergence(&prices, RsiDivergenceCheckMode::Minpoint, 30_000_000, 5));
}

#[test]
fn divergence_at_two_ascending_minima() {
    let prices = rising_then_sliding();
    assert!(divergence(&prices, RsiDivergenceCheckMode::Minpoint, 30_000_000, 5));
    assert!(!divergence(&prices, RsiDivergenceCheckMode::Peak, 70_000_000, 5));
}

#[test]
fn no_divergence_in_a_rising_series() {
    let rising: Vec<u64> = (0..40u64).map(|i| 1000 + 10 * i).collect();
    assert!(!divergence(&rising, RsiDivergenceCheckMode::Peak, 70_000_000, 40));
    assert!(!divergence(&rising, RsiDivergenceCheckMode::Minpoint, 30_000_000, 40));
}

#[test]
fn no_divergence_with_fewer_than_two_extrema_in_the_lookback() {
    let prices = falling_then_rallying();
    assert!(!divergence(&prices, RsiDivergenceCheckMode::Peak, 70_000_000, 3));
    assert!(!divergence(&prices, RsiDivergenceCheckMode::Peak, 70_000_000, 0));
    assert!(!divergence(&prices, RsiDivergenceCheckMode::Peak, 79_000_000, 5));
    assert!(!divergence(&prices[..39], RsiDivergenceCheckMode::Peak, 70_000_000, 5));
    assert!(!divergence(&[], RsiDivergenceCheckMode::Peak, 70_000_000, 5));
    assert!(!divergence(&prices[..10], RsiDivergenceCheckMode::Peak, 70_000_000, 5));
}

#[test]
fn divergence_needs_a_confirming_trend() {
    let mut prices = falling_then_rallying();
    prices[0] = 4000;
    assert!(!divergence(&prices, RsiDivergenceCheckMode::Peak, 70_000_000, 5));
    prices[0] = 4880;
    assert!(!divergence(&prices, RsiDivergenceCheckMode::Peak, 70_000_000, 5));
    prices[0] = 4881;
    assert!(divergence(&prices, RsiDivergenceCheckMode::Peak, 70_000_000, 5));
}

#[test]
fn divergence_of_plain_values() {
    let index = vec![Some(50), Some(80), Some(60), Some(75), Some(40)];
    let prices = vec![100, 90, 95, 96, 94];
    assert!(!divergence_of(&prices, &index, RsiDivergenceCheckMode::Peak, 70, 5));
    let index = vec![Some(50), Some(55), Some(80), Some(60), Some(75), Some(40)];
    let prices = vec![100, 90, 95, 91, 96, 94];
    assert!(divergence_of(&prices, &index, RsiDivergenceCheckMode::Peak, 70, 4));
    assert!(!divergence_of(&prices, &index, RsiDivergenceCheckMode::Peak, 70, 3));
    assert!(!divergence_of(&prices[..5], &index, RsiDivergenceCheckMode::Peak, 70, 4));
    let rising_index = vec![Some(50), Some(55), Some(75), Some(60), Some(80), Some(40)];
    assert!(!divergence_of(&prices, &rising_index, RsiDivergenceCheckMode::Peak, 70, 4));
    let falling_prices = vec![100, 90, 95, 91, 94, 93];
    assert!(!divergence_of(&falling_prices, &index, RsiDivergenceCheckMode::Peak, 70, 4));
    let unready = vec![None, Some(55), Some(80), Some(60), Some(75), Some(40)];
    assert!(divergence_of(&prices, &unready, RsiDivergenceCheckMode::Peak, 70, 4));
    let unready = vec![Some(50), None, Some(80), Some(60), Some(75), Some(40)];
    assert!(!divergence_of(&prices, &unready, RsiDivergenceCheckMode::Peak, 70, 4));
}

#[test]
fn breaking_peak_of_plain_values() {
    let index = vec![Some(50), Some(80), Some(60), Some(65), Some(66)];
    assert!(breaking_peak_of(&index, 4, 70));
    assert!(!breaking_peak_of(&index, 3, 70));
    assert!(breaking_peak_of(&index, 5, 70));
    assert!(!breaking_peak_of(&index, 4, 80));
    let latest = vec![Some(50), Some(60), Some(80), Some(70)];
    assert!(breaking_peak_of(&latest, 3, 70));
    assert!(!breaking_peak_of(&latest, 3, 80));
    let last_only = vec![Some(50), Some(60), Some(70), Some(80)];
    assert!(!breaking_peak_of(&last_only, 4, 70));
    let flat = vec![Some(80), Some(80), Some(80)];
    assert!(!breaking_peak_of(&flat, 3, 70));
    let unready = vec![Some(80), None, Some(60)];
    assert!(!breaking_peak_of(&unready, 3, 70));
}

#[test]
fn breaking_peak_in_a_price_series() {
    let prices = falling_then_rallying();
    assert!(breaking_peak(&prices, 4, 70_000_000));
    assert!(breaking_peak(&prices, 3, 70_000_000));
    assert!(breaking_peak(&prices, 41, 70_000_000));
    assert!(!breaking_peak(&prices[..38], 4, 70_000_000));
    assert!(!breaking_peak(&prices, 4, 79_000_000));
}
