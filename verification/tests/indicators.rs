use ppst::indicators::atr::{true_range, AtrCalculator};
use ppst::indicators::pivot::PivotCenterLine;
use ppst::indicators::supertrend::{SuperTrendState, Trend};
use ppst::{pivot_high, pivot_low};

#[test]
fn test_true_range() {
    // max(110-105, |110-108|, |105-108|) = max(5, 2, 3) = 5
    assert_eq!(true_range(110, 105, 108), 5);
}

#[test]
fn test_atr_calculator() {
    let mut atr = AtrCalculator::new(3);

    // First bar
    let result1 = atr.next(110, 105, 108);
    assert!(result1 > 0);

    // Second bar
    let result2 = atr.next(112, 108, 110);
    assert!(result2 > 0);

    // Third bar - should have ATR initialized
    let result3 = atr.next(115, 110, 112);
    assert!(result3 > 0);
    assert!(atr.atr.is_some());
}

#[test]
fn test_atr_warmup_exact() {
    // True ranges of the three bars: 6, 4, 5. While seeding, each call
    // returns the raw true range; the third call returns the exact mean.
    let mut atr = AtrCalculator::new(3);
    assert_eq!(atr.next(110, 104, 108), 6);
    assert_eq!(atr.next(112, 108, 110), 4);
    assert_eq!(atr.next(115, 110, 112), 5); // (6 + 4 + 5) / 3
    assert_eq!(atr.atr, Some(5));
}

#[test]
fn test_atr_steady_state_exact() {
    let mut atr = AtrCalculator::new(3);
    atr.next(110, 104, 108);
    atr.next(112, 108, 110);
    atr.next(115, 110, 112);
    assert_eq!(atr.atr, Some(5));
    // Wilder: (5 * 2 + 3) / 3 = 4, with true range max(4, 1, 3) = 3.
    assert_eq!(atr.next(116, 112, 115), 4);
    assert_eq!(atr.atr, Some(4));
}

#[test]
fn test_atr_zero_period_returns_raw_true_range() {
    // Degenerate window: the smoother never seeds and hands back the raw
    // true range of every bar.
    let mut atr = AtrCalculator::new(0);
    assert_eq!(atr.next(110, 105, 108), 5);
    assert_eq!(atr.next(112, 108, 110), 4);
    assert!(atr.atr.is_none());
}

#[test]
fn test_pivot_high() {
    // Pivot should be at index 2 (110) with left=1, right=2
    let highs: Vec<i64> = vec![100, 105, 110, 105, 100];
    let result = pivot_high(&highs, 1, 2);
    assert_eq!(result, Some(110));
}

#[test]
fn test_pivot_low() {
    // Pivot should be at index 2 (90) with left=1, right=2
    let lows: Vec<i64> = vec![100, 95, 90, 95, 100];
    let result = pivot_low(&lows, 1, 2);
    assert_eq!(result, Some(90));
}

#[test]
fn test_pivot_too_short_series() {
    let highs: Vec<i64> = vec![100, 105, 110];
    assert_eq!(pivot_high(&highs, 1, 2), None);
    assert_eq!(pivot_low(&highs, 1, 2), None);
}

#[test]
fn test_pivot_tie_accepted() {
    // A neighbor equal to the candidate does not invalidate the pivot.
    let highs: Vec<i64> = vec![100, 110, 110, 105, 100];
    assert_eq!(pivot_high(&highs, 1, 2), Some(110));
    let lows: Vec<i64> = vec![100, 90, 90, 95, 100];
    assert_eq!(pivot_low(&lows, 1, 2), Some(90));
}

#[test]
fn test_pivot_strict_neighbor_rejects() {
    // A strictly greater (resp. smaller) neighbor does invalidate it.
    let highs: Vec<i64> = vec![111, 110, 105, 100];
    assert_eq!(pivot_high(&highs, 1, 2), None);
    let lows: Vec<i64> = vec![89, 90, 95, 100];
    assert_eq!(pivot_low(&lows, 1, 2), None);
}

#[test]
fn test_pivot_center_line() {
    // Ticks are hundredths here, mirroring prices 100.00 and 110.00.
    let mut center = PivotCenterLine::new();
    assert_eq!(center.get(), None);

    center.update(10000);
    assert_eq!(center.get(), Some(10000));

    center.update(11000);
    let result = center.get().unwrap();
    // (100 * 2 + 110) / 3 is approximately 103.33
    assert!((result as f64 / 100.0 - 103.33).abs() < 0.01);
}

#[test]
fn test_center_line_exact_ticks() {
    let mut center = PivotCenterLine::new();
    center.update(100);
    assert_eq!(center.get(), Some(100));
    center.update(110);
    // floor((100 * 2 + 110) / 3) = 103
    assert_eq!(center.get(), Some(103));
}

#[test]
fn test_trend_display() {
    assert_eq!(Trend::Up.to_string(), "UP");
    assert_eq!(Trend::Down.to_string(), "DOWN");
}

#[test]
fn test_supertrend_state_initialization() {
    let state = SuperTrendState::new(105, 95);
    assert_eq!(state.trend, Trend::Up);
    assert_eq!(state.upper_band, 105);
    assert_eq!(state.lower_band, 95);
}

#[test]
fn test_supertrend_update() {
    let mut state = SuperTrendState::new(105, 95);

    // Update with new values
    state.update(106, 96, 100, 98);

    // Verify state has been updated
    assert!(state.upper_band > 0);
    assert!(state.lower_band > 0);
}

#[test]
fn test_band_ratchet_holds() {
    // prev_close above the old lower band: the lower band may only rise;
    // prev_close below the old upper band: the upper band may only fall.
    let mut state = SuperTrendState::new(105, 95);
    state.update(104, 96, 100, 100);
    assert_eq!(state.lower_band, 96); // max(96, 95)
    assert_eq!(state.upper_band, 104); // min(104, 105)
    assert_eq!(state.trend, Trend::Up);
}

#[test]
fn test_band_ratchet_releases() {
    // prev_close at or below the old lower band: the basic band is taken
    // as is, even if lower; same on the upper side.
    let mut state = SuperTrendState::new(105, 95);
    state.update(106, 94, 100, 94);
    assert_eq!(state.lower_band, 94);
    assert_eq!(state.upper_band, 105); // prev_close 94 < 105: min(106, 105)
}

#[test]
fn test_trend_flip_down_then_up() {
    let mut state = SuperTrendState::new(105, 95);
    // Close strictly below the old lower band flips the trend down.
    state.update(104, 96, 94, 100);
    assert_eq!(state.trend, Trend::Down);
    assert_eq!(state.get_signal_line(), state.upper_band);
    // Close strictly above the old upper band (104) flips it back up.
    state.update(105, 97, 106, 100);
    assert_eq!(state.trend, Trend::Up);
    assert_eq!(state.get_signal_line(), 97); // new lower band max(97, 96)
}

#[test]
fn test_trend_persists_between_bands() {
    let mut state = SuperTrendState::new(105, 95);
    // Close inside the old bands leaves the trend unchanged.
    state.update(104, 96, 100, 100);
    assert_eq!(state.trend, Trend::Up);
}

#[test]
fn test_get_signal_line() {
    let state_up = SuperTrendState::new(105, 95);
    assert_eq!(state_up.get_signal_line(), 95); // Trend::Up returns lower_band

    let mut state_down = SuperTrendState::new(105, 95);
    state_down.trend = Trend::Down;
    assert_eq!(state_down.get_signal_line(), 105); // Trend::Down returns upper_band
}
