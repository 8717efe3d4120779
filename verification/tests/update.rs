use chromaport::update::skip_update_check;
use chromaport::update::{
    check_for_update, check_for_update_at, classify_install_path, date_from_days, days_from_epoch, finish_update_check,
    format_iso8601, is_cache_valid, now_iso8601, parse_timestamp, strip_v_prefix,
    timestamp_unreadable, update_info, InstallMethod, UpdateCache, UpdateStep,
};

#[test]
fn test_strip_v_prefix() {
    assert_eq!(strip_v_prefix("v0.3.0"), "0.3.0");
    assert_eq!(strip_v_prefix("0.3.0"), "0.3.0");
    assert_eq!(strip_v_prefix("v1.0.0-beta.1"), "1.0.0-beta.1");
}

#[test]
fn test_parse_timestamp_valid() {
    let ts = parse_timestamp("2026-03-09T12:00:00Z");
    assert!(ts.is_some());
}

#[test]
fn test_parse_timestamp_invalid() {
    assert!(parse_timestamp("not-a-date").is_none());
    assert!(parse_timestamp("").is_none());
    assert!(parse_timestamp("2026-13-09T12:00:00Z").is_none());
}

#[test]
fn parse_timestamp_values() {
    assert_eq!(parse_timestamp("1970-01-01T00:00:00Z"), Some(0));
    assert_eq!(parse_timestamp("2026-03-09T12:00:00Z"), Some(1773057600));
    assert_eq!(parse_timestamp("  2000-01-01T00:00:01+09:00 "), Some(946684801));
    // Fields accept a leading plus sign, as `str::parse` does.
    assert_eq!(parse_timestamp("+970-01-01T00:00:00Z").is_some(), false);
}

#[test]
fn parse_timestamp_panicking_inputs_are_detected() {
    // A byte offset inside a multi-byte character.
    assert!(timestamp_unreadable("2026é-03-09T12:00:00Z"));
    // A year before 1970.
    assert!(timestamp_unreadable("1969-12-31T23:59:59Z"));
    assert!(!timestamp_unreadable("2026-03-09T12:00:00Z"));
    assert!(!timestamp_unreadable("short"));
}

#[test]
fn test_now_iso8601_format() {
    let ts = now_iso8601();
    assert!(ts.len() >= 20);
    assert!(ts.ends_with('Z'));
    assert!(ts.contains('T'));
}

#[test]
fn format_iso8601_values() {
    assert_eq!(format_iso8601(0), "1970-01-01T00:00:00Z");
    assert_eq!(format_iso8601(1773057600), "2026-03-09T12:00:00Z");
    assert_eq!(format_iso8601(951782399), "2000-02-28T23:59:59Z");
}

#[test]
fn test_cache_validity_fresh() {
    let cache = UpdateCache {
        last_checked_at: now_iso8601(),
        latest_version: "0.3.0".to_string(),
    };
    assert!(is_cache_valid(&cache));
}

#[test]
fn test_cache_validity_expired() {
    let cache = UpdateCache {
        last_checked_at: "2020-01-01T00:00:00Z".to_string(),
        latest_version: "0.3.0".to_string(),
    };
    assert!(!is_cache_valid(&cache));
}

#[test]
fn test_cache_validity_corrupted() {
    let cache = UpdateCache {
        last_checked_at: "not-a-date".to_string(),
        latest_version: "0.3.0".to_string(),
    };
    assert!(!is_cache_valid(&cache));
}

#[test]
fn test_date_roundtrip() {
    // 2026-03-09 should roundtrip
    let days = days_from_epoch(2026, 3, 9).unwrap();
    let (y, m, d) = date_from_days(days);
    assert_eq!((y, m, d), (2026, 3, 9));
}

#[test]
fn days_from_epoch_rejects_out_of_range() {
    assert_eq!(days_from_epoch(2026, 0, 9), None);
    assert_eq!(days_from_epoch(2026, 13, 9), None);
    assert_eq!(days_from_epoch(2026, 3, 0), None);
    assert_eq!(days_from_epoch(2026, 3, 32), None);
    assert_eq!(days_from_epoch(1970, 1, 1), Some(0));
    assert_eq!(days_from_epoch(1969, 12, 31), Some(-1));
}

#[test]
fn update_info_compares_versions() {
    assert!(update_info("0.2.0", "0.3.0").is_some());
    assert!(update_info("0.2.0", "0.2.0").is_none());
    assert!(update_info("0.3.0", "0.2.0").is_none());
    assert!(update_info("0.2.0", "not-a-version").is_none());
    let info = update_info("0.2.0", "1.0.0").unwrap();
    assert_eq!(info.current, "0.2.0");
    assert_eq!(info.latest, "1.0.0");
}

#[test]
fn check_for_update_decisions() {
    assert!(matches!(check_for_update(true, "0.2.0", None), UpdateStep::Done(None)));
    assert!(matches!(check_for_update(false, "0.2.0", None), UpdateStep::Fetch));
    let fresh = UpdateCache { last_checked_at: now_iso8601(), latest_version: "0.3.0".to_string() };
    match check_for_update(false, "0.2.0", Some(fresh)) {
        UpdateStep::Done(Some(info)) => assert_eq!(info.latest, "0.3.0"),
        _ => panic!("a fresh cache with a newer version answers from the cache"),
    }
    let stale = UpdateCache {
        last_checked_at: "2020-01-01T00:00:00Z".to_string(),
        latest_version: "0.3.0".to_string(),
    };
    assert!(matches!(check_for_update(false, "0.2.0", Some(stale)), UpdateStep::Fetch));
}

#[test]
fn finish_update_check_writes_cache() {
    let (info, cache) = finish_update_check("0.2.0", Some("0.3.0".to_string()));
    assert_eq!(info.unwrap().latest, "0.3.0");
    let cache = cache.unwrap();
    assert_eq!(cache.latest_version, "0.3.0");
    assert!(cache.last_checked_at.ends_with('Z'));
    let (info, cache) = finish_update_check("0.2.0", None);
    assert!(info.is_none() && cache.is_none());
}

#[test]
fn classify_install_paths() {
    assert_eq!(classify_install_path("/opt/homebrew/Cellar/chromaport/0.3.0/bin/chromaport"), InstallMethod::Homebrew);
    assert_eq!(classify_install_path("/home/u/.cargo/bin/chromaport"), InstallMethod::Cargo);
    assert_eq!(classify_install_path("/usr/local/bin/chromaport"), InstallMethod::Unknown);
}

#[test]
fn test_compare_versions_newer() {
    assert!(update_info("0.2.0", "0.3.0").is_some());
}

#[test]
fn test_compare_versions_equal() {
    assert!(update_info("0.2.0", "0.2.0").is_none());
}

#[test]
fn test_compare_versions_older() {
    assert!(update_info("0.3.0", "0.2.0").is_none());
}

#[test]
fn skip_conditions() {
    assert!(skip_update_check(true, false, true));
    assert!(skip_update_check(false, true, true));
    assert!(skip_update_check(false, false, false));
    assert!(!skip_update_check(false, false, true));
}

#[test]
fn unreadable_cache_timestamps_mean_fetch() {
    for ts in ["2026é-03-09T12:00:00Z", "1969-12-31T23:59:59Z", "not-a-date"] {
        assert_eq!(parse_timestamp(ts), None);
        let cache = UpdateCache { last_checked_at: ts.to_string(), latest_version: "9.9.9".to_string() };
        assert!(!is_cache_valid(&cache));
        assert!(matches!(check_for_update(false, "0.2.0", Some(cache)), UpdateStep::Fetch));
    }
}

#[test]
fn written_timestamps_read_back() {
    for secs in [0u64, 1, 86399, 951782400, 1773057600, 4102444799, 253402300799] {
        assert_eq!(parse_timestamp(&format_iso8601(secs)), Some(secs));
    }
    // A five-digit year no longer fits the fixed field offsets.
    assert_eq!(parse_timestamp(&format_iso8601(253402300800)), None);
}

#[test]
fn update_step_at_a_given_time() {
    use_step_at();
}

fn use_step_at() {
    let written = 1773057600u64;
    let cache = || UpdateCache { last_checked_at: format_iso8601(written), latest_version: "0.3.0".to_string() };
    match check_for_update_at(false, "0.2.0", Some(cache()), written + 3600) {
        UpdateStep::Done(Some(i)) => assert_eq!((i.current.as_str(), i.latest.as_str()), ("0.2.0", "0.3.0")),
        _ => panic!("a fresh cache answers"),
    }
    assert!(matches!(check_for_update_at(false, "0.3.0", Some(cache()), written), UpdateStep::Done(None)));
    assert!(matches!(check_for_update_at(false, "0.2.0", Some(cache()), written + 604800), UpdateStep::Fetch));
    assert!(matches!(check_for_update_at(false, "0.2.0", Some(cache()), written - 1), UpdateStep::Fetch));
    assert!(matches!(check_for_update_at(true, "0.2.0", Some(cache()), written), UpdateStep::Done(None)));
}
