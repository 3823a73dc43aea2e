use ferrum::clock::{
    epoch_day, et_minutes_of, in_market_hours, is_market_hours, parse_hhmm, scan_window_open,
    UtcClock, DAY_MICROS,
};
use ferrum::report::{
    fills_by_day, near_miss_targets, order_risk_blocks, parse_iso_week, week_bounds, week_label, FillRow,
    RiskBlockCount,
};
use ferrum::text::{contains_str, fixed_string, has_char, parse_i32, parse_u32, str_eq, u64_text};

#[test]
fn parse_u32_accepts_digits_and_plus() {
    assert_eq!(parse_u32("42"), Some(42));
    assert_eq!(parse_u32("+7"), Some(7));
    assert_eq!(parse_u32("0009"), Some(9));
    assert_eq!(parse_u32("4294967295"), Some(u32::MAX));
}

#[test]
fn parse_u32_rejects_bad_text() {
    assert_eq!(parse_u32(""), None);
    assert_eq!(parse_u32("+"), None);
    assert_eq!(parse_u32("-1"), None);
    assert_eq!(parse_u32("1a"), None);
    assert_eq!(parse_u32(" 1"), None);
    assert_eq!(parse_u32("4294967296"), None);
}

#[test]
fn parse_i32_handles_signs_and_range() {
    assert_eq!(parse_i32("-12"), Some(-12));
    assert_eq!(parse_i32("+12"), Some(12));
    assert_eq!(parse_i32("2147483647"), Some(i32::MAX));
    assert_eq!(parse_i32("-2147483648"), Some(i32::MIN));
    assert_eq!(parse_i32("2147483648"), None);
    assert_eq!(parse_i32("-"), None);
}

#[test]
fn fixed_string_rounds_to_nearest() {
    assert_eq!(fixed_string(123_456, 2), "12.35");
    assert_eq!(fixed_string(123_449, 2), "12.34");
    assert_eq!(fixed_string(-50_000, 1), "-5.0");
    assert_eq!(fixed_string(150_000, 0), "15");
    assert_eq!(fixed_string(5, 2), "0.00");
    assert_eq!(fixed_string(-5, 2), "-0.00");
    assert_eq!(fixed_string(10_000_000, 2), "1000.00");
    assert_eq!(fixed_string(7, 4), "0.0007");
    // Exact halves go to the even neighbour, as `{:.N}` formatting does.
    assert_eq!(fixed_string(1_250, 2), "0.12");
    assert_eq!(fixed_string(1_350, 2), "0.14");
    assert_eq!(fixed_string(-1_250, 2), "-0.12");
    assert_eq!(fixed_string(1_251, 2), "0.13");
    assert_eq!(fixed_string(5_000, 0), "0");
    assert_eq!(fixed_string(15_000, 0), "2");
    assert_eq!(fixed_string(25_000, 0), "2");
    assert_eq!(fixed_string(-25_000, 0), "-2");
}

#[test]
fn u64_text_writes_decimal() {
    assert_eq!(u64_text(0), "0");
    assert_eq!(u64_text(1_234_567), "1234567");
    assert_eq!(u64_text(u64::MAX), "18446744073709551615");
}

#[test]
fn string_helpers() {
    assert!(str_eq("abc", "abc"));
    assert!(!str_eq("abc", "abd"));
    let v = vec!["SPY".to_string(), "QQQ".to_string()];
    assert!(contains_str(&v, "QQQ"));
    assert!(!contains_str(&v, "IWM"));
    assert!(has_char("AAPL260619C00200000", 'C'));
    assert!(!has_char("AAPL", 'C'));
}

#[test]
fn epoch_day_floors() {
    assert_eq!(epoch_day(0), 0);
    assert_eq!(epoch_day(DAY_MICROS - 1), 0);
    assert_eq!(epoch_day(DAY_MICROS), 1);
    assert_eq!(epoch_day(-1), -1);
    assert_eq!(epoch_day(-DAY_MICROS), -1);
    assert_eq!(epoch_day(20_563 * DAY_MICROS + 5), 20_563);
}

fn clock(month: u32, hour: u32, minute: u32) -> UtcClock {
    UtcClock { micros: 0, month, hour, minute }
}

#[test]
fn eastern_minutes_follow_the_season() {
    // July: UTC-4. 13:30 UTC is 9:30 ET.
    assert_eq!(et_minutes_of(&clock(7, 13, 30)), 570);
    // January: UTC-5. 14:30 UTC is 9:30 ET.
    assert_eq!(et_minutes_of(&clock(1, 14, 30)), 570);
    // Just after UTC midnight wraps to the previous Eastern evening.
    assert_eq!(et_minutes_of(&clock(7, 2, 0)), 22 * 60);
}

#[test]
fn market_hours_window() {
    assert!(in_market_hours(&clock(7, 13, 30)));
    assert!(!in_market_hours(&clock(7, 13, 29)));
    // The session closes at 16:00 ET: 15:59 is inside, 16:00 and 16:02 are not.
    assert!(in_market_hours(&clock(7, 19, 59)));
    assert!(!in_market_hours(&clock(7, 20, 0)));
    assert!(!in_market_hours(&clock(6, 20, 2)));
    assert!(!in_market_hours(&clock(12, 13, 30)));
    // Runs against the real clock; any answer is fine.
    let _ = is_market_hours();
}

#[test]
fn parse_hhmm_reads_minutes() {
    assert_eq!(parse_hhmm("09:30"), Some(570));
    assert_eq!(parse_hhmm("15:30"), Some(930));
    assert_eq!(parse_hhmm("9:5"), Some(545));
    assert_eq!(parse_hhmm("0930"), None);
    assert_eq!(parse_hhmm("09:3x"), None);
    assert_eq!(parse_hhmm(":30"), None);
    assert_eq!(parse_hhmm("09:30:00"), None);
}

#[test]
fn scan_window_uses_configured_times_or_defaults() {
    // 10:00 ET in July.
    let c = clock(7, 14, 0);
    assert!(scan_window_open(true, &c, "09:30", "15:30"));
    assert!(!scan_window_open(false, &c, "09:30", "15:30"));
    assert!(!scan_window_open(true, &c, "10:01", "15:30"));
    // End is exclusive.
    assert!(!scan_window_open(true, &c, "09:00", "10:00"));
    // Unparsable times fall back to 09:30 and 15:30.
    assert!(scan_window_open(true, &c, "bad", "bad"));
    let late = clock(7, 19, 45);
    assert!(!scan_window_open(true, &late, "bad", "bad"));
}

#[test]
fn week_label_reads_back() {
    assert_eq!(week_label(2026, 7), "2026-W07");
    assert_eq!(week_label(2026, 17), "2026-W17");
    assert_eq!(week_label(-5, 123), "-5-W123");
    for (y, w) in [(2026, 7), (2026, 53), (-5, 123), (i32::MIN, 0), (i32::MAX, u32::MAX)] {
        assert_eq!(parse_iso_week(&week_label(y, w)), Some((y, w)));
    }
}

#[test]
fn parse_iso_week_reads_year_and_week() {
    assert_eq!(parse_iso_week("2026-W17"), Some((2026, 17)));
    assert_eq!(parse_iso_week("2026-W1"), Some((2026, 1)));
    assert_eq!(parse_iso_week("2026W17"), None);
    assert_eq!(parse_iso_week("2026-W"), None);
    assert_eq!(parse_iso_week("x-W17"), None);
}

#[test]
fn week_bounds_of_a_real_week() {
    // ISO week 17 of 2026 starts on Monday 2026-04-20 (day 20563).
    assert_eq!(week_bounds(2026, 17), Ok((20_563, 20_569, 20_567)));
    // Week 1 of 2026 starts in the previous calendar year.
    assert_eq!(week_bounds(2026, 1), Ok((20_451, 20_457, 20_455)));
    // 2020 has 53 ISO weeks.
    assert_eq!(week_bounds(2020, 53), Ok((18_624, 18_630, 18_628)));
}

#[test]
fn week_bounds_rejects_missing_weeks() {
    assert_eq!(week_bounds(2025, 53), Err("invalid ISO week 2025-W53".to_string()));
    // Week 53 exists in years starting on a Thursday, or on a Wednesday in leap years.
    assert!(week_bounds(2026, 53).is_ok());
    assert!(week_bounds(2032, 53).is_ok());
    assert!(week_bounds(2024, 53).is_err());
    assert_eq!(week_bounds(2026, 0), Err("invalid ISO week 2026-W00".to_string()));
    assert_eq!(week_bounds(2026, 54), Err("invalid ISO week 2026-W54".to_string()));
}

fn fill(day: &str, side: &str, qty: i64, price: i64) -> FillRow {
    FillRow { day: day.to_string(), side: side.to_string(), qty, price }
}

#[test]
fn fills_grouped_by_day_in_order() {
    let rows = vec![
        fill("2026-04-22", "buy", 20_000, 20_500),
        fill("2026-04-20", "buy", 10_000, 30_000),
        fill("2026-04-22", "sell", 20_000, 25_000),
        fill("2026-04-20", "buy", 10_000, 10_000),
        fill("?", "sell", 10_000, 10_000),
    ];
    let days = fills_by_day(&rows);
    let names: Vec<&str> = days.iter().map(|d| d.day.as_str()).collect();
    assert_eq!(names, vec!["2026-04-20", "2026-04-22", "?"]);
    // 1 × 3.00 × 100 + 1 × 1.00 × 100 = 400.00 (eight decimals)
    assert_eq!(days[0].buys, 2);
    assert_eq!(days[0].sells, 0);
    assert_eq!(days[0].buy_notional, 40_000_000_000);
    // 2 × 2.05 × 100 = 410.00 bought, 2 × 2.50 × 100 = 500.00 sold
    assert_eq!(days[1].buys, 1);
    assert_eq!(days[1].sells, 1);
    assert_eq!(days[1].buy_notional, 41_000_000_000);
    assert_eq!(days[1].sell_notional, 50_000_000_000);
    assert_eq!(days[2].sells, 1);
    let counted: u64 = days.iter().map(|d| d.buys + d.sells).sum();
    assert_eq!(counted, rows.len() as u64);
    assert!(fills_by_day(&Vec::new()).is_empty());
}

#[test]
fn non_buy_sides_count_as_sells() {
    let days = fills_by_day(&vec![fill("2026-04-20", "BUY", 10_000, 10_000)]);
    assert_eq!(days[0].buys, 0);
    assert_eq!(days[0].sells, 1);
}

#[test]
fn near_miss_rows_sit_one_under_threshold() {
    let t = near_miss_targets();
    let rows: Vec<(String, i32, i32)> = t.iter().map(|x| (x.regime.clone(), x.threshold, x.score)).collect();
    assert_eq!(
        rows,
        vec![
            ("trending_up".to_string(), 6, 5),
            ("trending_down".to_string(), 6, 5),
            ("range_bound".to_string(), 6, 5),
            ("choppy".to_string(), 8, 7),
        ]
    );
}

#[test]
fn risk_blocks_ordered_by_count() {
    let b = |c: &str, n: i64| RiskBlockCount { category: c.to_string(), count: n };
    let sorted = order_risk_blocks(vec![b("cash_reserve", 2), b("cooldown", 5), b("max_open_positions", 2), b("sector_cap", 9)]);
    let names: Vec<(String, i64)> = sorted.into_iter().map(|x| (x.category, x.count)).collect();
    assert_eq!(
        names,
        vec![
            ("sector_cap".to_string(), 9),
            ("cooldown".to_string(), 5),
            ("cash_reserve".to_string(), 2),
            ("max_open_positions".to_string(), 2),
        ]
    );
    assert!(order_risk_blocks(Vec::new()).is_empty());
}
