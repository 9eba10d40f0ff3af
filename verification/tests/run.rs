use ppst::final_output;
use ppst::indicators::supertrend::{SuperTrendSignal, Trend};
use ppst::ppst::{Candle, ComputationState, Ratio, PPST};

fn flat_candles(prices: &[i64]) -> Vec<Candle> {
    let mut candles = Vec::new();
    for (i, &p) in prices.iter().enumerate() {
        candles.push(Candle { high: p, low: p, close: p, timestamp: i as i64 });
    }
    candles
}

#[test]
fn test_empty_candles() {
    let mut run = PPST::new(2, Ratio { num: 3, den: 1 }, 14, 0);
    let candles: Vec<Candle> = Vec::new();
    run.calculate(&candles);
    assert!(run.signals.is_empty());
    assert!(matches!(run.computation_state, ComputationState::Completed));
    assert_eq!(final_output(&run).final_trend, "unset");
}

#[test]
fn test_end_to_end_rising_series() {
    // A dip confirms a pivot low (the 90 at index 1), the drop to 60 flips
    // the trend down, and the monotonic rise afterwards produces exactly
    // one LONG signal - at index 7, where the close (100) first exceeds
    // the trailing upper band - and no further signals while it continues.
    let prices: [i64; 13] = [100, 90, 100, 60, 70, 80, 90, 100, 110, 120, 130, 140, 150];
    let candles = flat_candles(&prices);
    let mut run = PPST::new(1, Ratio { num: 1, den: 1 }, 1, candles.len());
    run.calculate(&candles);

    assert_eq!(run.signals.len(), 2);
    assert_eq!(run.signals[0].index, 3);
    assert!(matches!(run.signals[0].signal_type, SuperTrendSignal::Short));
    assert_eq!(run.signals[0].price, 60);
    assert_eq!(run.signals[0].signal_line, 133);

    assert_eq!(run.signals[1].index, 7);
    assert!(matches!(run.signals[1].signal_type, SuperTrendSignal::Long));
    assert_eq!(run.signals[1].price, 100);
    assert_eq!(run.signals[1].timestamp, 7);
    assert_eq!(run.signals[1].trend, Trend::Up);
    assert_eq!(run.signals[1].signal_line, 72);

    let longs = run.signals.iter().filter(|s| matches!(s.signal_type, SuperTrendSignal::Long)).count();
    assert_eq!(longs, 1);
    assert_eq!(final_output(&run).final_trend, "UP");
}

#[test]
fn test_factor_ratio_scales_bands() {
    // Doubling the factor widens the bands: the LONG flip arrives a bar
    // later and the signal lines move out.
    let prices: [i64; 13] = [100, 90, 100, 60, 70, 80, 90, 100, 110, 120, 130, 140, 150];
    let candles = flat_candles(&prices);
    let mut run = PPST::new(1, Ratio { num: 2, den: 1 }, 1, candles.len());
    run.calculate(&candles);

    assert_eq!(run.signals.len(), 2);
    assert_eq!(run.signals[0].index, 3);
    assert_eq!(run.signals[0].signal_line, 110);
    assert_eq!(run.signals[1].index, 8);
    assert!(matches!(run.signals[1].signal_type, SuperTrendSignal::Long));
    assert_eq!(run.signals[1].signal_line, 62);
}

#[test]
fn test_zero_pivot_period() {
    // Degenerate window: every bar is immediately eligible for pivot
    // confirmation, so the center line follows every bar's high and low.
    let candles = vec![
        Candle { high: 105, low: 95, close: 100, timestamp: 0 },
        Candle { high: 115, low: 105, close: 110, timestamp: 1 },
        Candle { high: 95, low: 85, close: 90, timestamp: 2 },
        Candle { high: 110, low: 100, close: 105, timestamp: 3 },
    ];
    let mut run = PPST::new(0, Ratio { num: 1, den: 1 }, 2, candles.len());
    run.calculate(&candles);

    assert_eq!(run.atrs, vec![10, 12, 18, 19]);
    assert_eq!(run.signals.len(), 1);
    assert_eq!(run.signals[0].index, 2);
    assert!(matches!(run.signals[0].signal_type, SuperTrendSignal::Short));
    assert_eq!(run.signals[0].price, 90);
    assert_eq!(run.signals[0].signal_line, 111);
    assert_eq!(final_output(&run).final_trend, "DOWN");
}

#[test]
fn test_recompute_identical() {
    // A completed run resets itself on the next computation; recomputing
    // over the identical candle sequence yields an identical signal list
    // and final trend, and so does a freshly built run.
    let prices: [i64; 13] = [100, 90, 100, 60, 70, 80, 90, 100, 110, 120, 130, 140, 150];
    let candles = flat_candles(&prices);

    let mut run = PPST::new(1, Ratio { num: 1, den: 1 }, 1, candles.len());
    run.calculate(&candles);
    let first_signals = run.signals.clone();
    let first_trend = final_output(&run).final_trend;

    run.calculate(&candles);
    assert_eq!(run.signals, first_signals);
    assert_eq!(final_output(&run).final_trend, first_trend);

    let mut fresh = PPST::new(1, Ratio { num: 1, den: 1 }, 1, candles.len());
    fresh.calculate(&candles);
    assert_eq!(fresh.signals, first_signals);
    assert_eq!(final_output(&fresh).final_trend, first_trend);
}

#[test]
fn test_reset_clears_state() {
    let prices: [i64; 13] = [100, 90, 100, 60, 70, 80, 90, 100, 110, 120, 130, 140, 150];
    let candles = flat_candles(&prices);
    let mut run = PPST::new(1, Ratio { num: 1, den: 1 }, 1, candles.len());
    run.calculate(&candles);
    assert!(!run.signals.is_empty());

    run.reset();
    assert!(run.signals.is_empty());
    assert!(run.highs.is_empty());
    assert!(run.supertrend_state.is_none());
    assert!(matches!(run.computation_state, ComputationState::Initialized));
    assert_eq!(final_output(&run).final_trend, "unset");
}

#[test]
fn test_signal_tags() {
    assert_eq!(ppst::indicators::supertrend::SuperTrendSignal::Long.to_string(), "LONG");
    assert_eq!(ppst::indicators::supertrend::SuperTrendSignal::Short.to_string(), "SHORT");
}
