use okx_pa_agent::backtest::{
    backtest_data_plan, backtest_window, closed_htf_bins, data_plan, default_htf_for_ltf, jobs_to_evict, tally_trades,
    BacktestDataPlan, BacktestWindow, DataPlan, TradeTally, rows_by_time,
};
use okx_pa_agent::labels::BacktestDataSource;

#[test]
fn backtests_confirm_on_the_standard_higher_timeframe() {
    assert_eq!(default_htf_for_ltf("1m"), "1H");
    assert_eq!(default_htf_for_ltf("3m"), "1H");
    assert_eq!(default_htf_for_ltf("5m"), "1H");
    assert_eq!(default_htf_for_ltf("30m"), "4H");
    assert_eq!(default_htf_for_ltf(" 15M "), "1H");
    assert_eq!(default_htf_for_ltf("1H"), "4H");
    assert_eq!(default_htf_for_ltf("4h"), "1D");
    assert_eq!(default_htf_for_ltf("1w"), "1D");
}

fn minutes(n: i64) -> Vec<i64> {
    (0..n).map(|i| i * 60_000).collect()
}

#[test]
fn runs_start_after_warmup_and_respect_the_time_range() {
    let ts = minutes(100);
    assert_eq!(backtest_window(&ts, 30, None, None), Ok(BacktestWindow { start: 50, end: 100, active_bars: 50 }));
    // A later start time moves the start; an end time stops before the first later bar.
    assert_eq!(
        backtest_window(&ts, 30, Some(60 * 60_000), Some(79 * 60_000)),
        Ok(BacktestWindow { start: 60, end: 80, active_bars: 20 })
    );
    // An earlier start time never cuts into the warm-up.
    assert_eq!(
        backtest_window(&ts, 30, Some(0), None),
        Ok(BacktestWindow { start: 50, end: 100, active_bars: 50 })
    );
    // An end before the start still reports one bar.
    assert_eq!(
        backtest_window(&ts, 30, None, Some(10 * 60_000)),
        Ok(BacktestWindow { start: 50, end: 11, active_bars: 1 })
    );
}

#[test]
fn runs_refuse_too_little_data() {
    let ts = minutes(40);
    assert_eq!(
        backtest_window(&ts, 30, None, None),
        Err("数据量不足：总共 40 根 K 线，至少需要 50 根进行指标预热与策略诊断".to_string())
    );
    let ts = minutes(100);
    assert_eq!(
        backtest_window(&ts, 30, Some(1_000 * 60_000), None),
        Err("指定时间范围内无可用数据：需要至少 50 根预热 K 线，但在起始时间之后仅有 0 根 K 线".to_string())
    );
}

#[test]
fn higher_timeframe_bins_close_before_they_are_used() {
    // 5-minute bars from 00:00 to 00:50 (11 bars), grouped into 15-minute bins.
    let ts: Vec<i64> = (0..11).map(|i| i * 300_000).collect();
    // As of the 00:25 bar (closing 00:30): the 00:00 and 00:15 bins have closed.
    let bins = closed_htf_bins(&ts, "5m", "15m", 5);
    assert_eq!(bins.len(), 2);
    assert_eq!(bins[0].open_ms, 0);
    assert_eq!(bins[0].members, vec![0, 1, 2]);
    assert_eq!(bins[1].open_ms, 900_000);
    assert_eq!(bins[1].members, vec![3, 4, 5]);
    // As of the 00:30 bar, the 00:30 bin is still open.
    assert_eq!(closed_htf_bins(&ts, "5m", "15m", 6).len(), 2);
    // A higher timeframe that is not longer gives nothing.
    assert!(closed_htf_bins(&ts, "15m", "5m", 6).is_empty());
    assert!(closed_htf_bins(&ts, "5m", "15m", 11).is_empty());
}

#[test]
fn trade_tallies_count_results_and_streaks() {
    let t = tally_trades(&vec![1, 1, -1, 0, 1, 1, 1, -1, -1]);
    assert_eq!(
        t,
        TradeTally { winning: 5, losing: 3, break_even: 1, max_consecutive_wins: 3, max_consecutive_losses: 2 }
    );
    assert_eq!(
        tally_trades(&Vec::new()),
        TradeTally { winning: 0, losing: 0, break_even: 0, max_consecutive_wins: 0, max_consecutive_losses: 0 }
    );
}

#[test]
fn jobs_read_candles_from_the_configured_source() {
    assert_eq!(data_plan(true, BacktestDataSource::OkxApi), DataPlan::Fixture);
    assert_eq!(data_plan(false, BacktestDataSource::LocalFile), DataPlan::MissingFixture);
    assert_eq!(data_plan(false, BacktestDataSource::Synthetic), DataPlan::Synthetic);
    assert_eq!(data_plan(false, BacktestDataSource::OkxApi), DataPlan::Exchange);
}

#[test]
fn jobs_plan_their_history() {
    // A day of 15-minute bars.
    let start = 1_700_000_000_000;
    assert_eq!(
        backtest_data_plan("15m", Some(start), Some(start + 86_400_000), 2000),
        BacktestDataPlan {
            interval_ms: 900_000,
            candle_start_ms: start - 200 * 900_000,
            trading_bars: 96,
            synthetic_count: 2000,
            exchange_request: 2000,
        }
    );
    // No range: the configured maximum, at least 300, and at most 3000 asked.
    assert_eq!(
        backtest_data_plan("1h", None, None, 5000),
        BacktestDataPlan {
            interval_ms: 3_600_000,
            candle_start_ms: 1_710_000_000_000 - 200 * 3_600_000,
            trading_bars: 5000,
            synthetic_count: 5230,
            exchange_request: 3000,
        }
    );
    assert_eq!(backtest_data_plan("1h", None, None, 100).trading_bars, 300);
    assert_eq!(backtest_data_plan("1h", None, None, 100).synthetic_count, 530);
}

#[test]
fn full_job_lists_drop_their_oldest_finished_jobs() {
    let mut finished = vec![true; 30];
    finished[0] = false;
    let created: Vec<i64> = (0..30).map(|i| 1_000 - i as i64).collect();
    // 30 kept: one must go, the oldest finished one (the last created first).
    assert_eq!(jobs_to_evict(&finished, &created), vec![29]);
    let mut more = finished.clone();
    more.extend([true, true]);
    let mut created_more = created.clone();
    created_more.extend([5_000, 6_000]);
    assert_eq!(jobs_to_evict(&more, &created_more), vec![29, 28, 27]);
    // Fewer than 30: nothing goes; nothing finished: nothing goes.
    assert!(jobs_to_evict(&vec![true; 29], &vec![0; 29]).is_empty());
    assert!(jobs_to_evict(&vec![false; 31], &vec![0; 31]).is_empty());
}

#[test]
fn rows_are_kept_once_per_time_last_wins_oldest_first() {
    // times: 300, 100, 200, 100, 300, 50
    let ts = vec![300, 100, 200, 100, 300, 50];
    assert_eq!(rows_by_time(&ts), vec![5, 3, 2, 4]);
    assert_eq!(rows_by_time(&vec![]), Vec::<usize>::new());
    assert_eq!(rows_by_time(&vec![7, 7, 7]), vec![2]);
    assert_eq!(rows_by_time(&vec![1, 2, 3]), vec![0, 1, 2]);
}
