use masday_mcp::timestamp::{parse_ts, pick_instant, Instant};

fn rfc3339(t: &Instant) -> String {
    chrono::DateTime::from_timestamp(t.secs, t.nanos).unwrap().to_rfc3339()
}

#[test]
fn test_parse_ts_handles_both_timestamp_formats() {
    let rfc = parse_ts("2026-06-20T12:00:00+00:00");
    assert_eq!(rfc3339(&rfc), "2026-06-20T12:00:00+00:00");
    let dt = parse_ts("2026-06-20 12:00:00");
    assert_eq!(rfc3339(&dt), "2026-06-20T12:00:00+00:00");
    let fallback = parse_ts("not-a-timestamp");
    let drift = (chrono::Utc::now().timestamp() - fallback.secs).abs();
    assert!(drift < 5, "garbage should fall back to ~now (drift {drift}s)");
}

#[test]
fn offsets_and_fractions_are_kept() {
    let t = parse_ts("2026-06-20T14:00:00.250+02:00");
    assert_eq!(t.secs, parse_ts("2026-06-20 12:00:00").secs);
    assert_eq!(t.nanos, 250_000_000);
    let s = parse_ts("2026-06-20 12:00:00.5");
    assert_eq!(s.nanos, 500_000_000);
}

#[test]
fn rfc_reading_comes_first() {
    let t = pick_instant(Some((10, 1)), Some((20, 2)), (30, 3));
    assert_eq!((t.secs, t.nanos), (10, 1));
    let t = pick_instant(None, Some((20, 2)), (30, 3));
    assert_eq!((t.secs, t.nanos), (20, 2));
    let t = pick_instant(None, None, (30, 3));
    assert_eq!((t.secs, t.nanos), (30, 3));
}
