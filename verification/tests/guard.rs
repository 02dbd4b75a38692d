use okx_pa_agent::guard::day_rolled_over;

#[test]
fn the_guard_day_changes_at_local_midnight() {
    let day = 86_400_000;
    assert!(!day_rolled_over(10 * day + 5, 10 * day + 80_000_000, 0));
    assert!(day_rolled_over(10 * day + 5, 11 * day, 0));
    // Eight hours east: 20:00 UTC is already the next local day.
    let eight_hours = 8 * 3_600_000;
    assert!(day_rolled_over(10 * day + 3_600_000, 10 * day + 20 * 3_600_000, eight_hours));
    assert!(!day_rolled_over(10 * day + 3_600_000, 10 * day + 15 * 3_600_000, eight_hours));
}
