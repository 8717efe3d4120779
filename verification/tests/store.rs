use chromaport::store::{days_to_ymd, theme_slug};

#[test]
fn test_theme_slug_basic() {
    assert_eq!(theme_slug("One Monokai"), "one-monokai");
    assert_eq!(theme_slug("Dracula Official"), "dracula-official");
    assert_eq!(theme_slug("Tokyo Night"), "tokyo-night");
}

#[test]
fn test_theme_slug_special_chars() {
    assert_eq!(theme_slug("Theme!@#$%"), "theme");
    assert_eq!(theme_slug("  spaces  "), "spaces");
}

#[test]
fn test_theme_slug_empty() {
    assert_eq!(theme_slug("!@#"), "unnamed-theme");
    assert_eq!(theme_slug(""), "unnamed-theme");
}

#[test]
fn test_theme_slug_long_name_truncated() {
    let long_name = "a".repeat(100);
    let slug = theme_slug(&long_name);
    assert!(slug.len() <= 64);
}

#[test]
fn test_theme_slug_preserves_underscores() {
    assert_eq!(theme_slug("my_theme"), "my_theme");
}

#[test]
fn test_theme_slug_unicode_characters() {
    // Unicode alphanumeric characters are preserved by is_alphanumeric()
    assert_eq!(theme_slug("テーマ Dark"), "テーマ-dark");
    assert_eq!(theme_slug("한글 테마"), "한글-테마");
}

#[test]
fn test_theme_slug_emoji_stripped() {
    assert_eq!(theme_slug("🌙 Night Owl"), "night-owl");
}

#[test]
fn test_theme_slug_mixed_separators() {
    assert_eq!(theme_slug("my--theme---name"), "my-theme-name");
    assert_eq!(theme_slug("---leading"), "leading");
    assert_eq!(theme_slug("trailing---"), "trailing");
}

#[test]
fn theme_slug_cuts_at_64_bytes() {
    let long_name = "a".repeat(100);
    assert_eq!(theme_slug(&long_name), "a".repeat(64));
    // The cut may leave a trailing hyphen.
    let name = format!("{}-b", "a".repeat(63));
    assert_eq!(theme_slug(&name), format!("{}-", "a".repeat(63)));
}

#[test]
fn theme_slug_is_stable() {
    for name in ["One Monokai", "  Ayu   Dark!! ", "テーマ Dark", "!@#", "my_theme"] {
        let once = theme_slug(name);
        assert_eq!(theme_slug(&once), once);
    }
}

#[test]
fn test_days_to_ymd_epoch() {
    assert_eq!(days_to_ymd(0), (1970, 1, 1));
}

#[test]
fn test_days_to_ymd_known_dates() {
    // 2000-01-01 = 10957 days since epoch
    assert_eq!(days_to_ymd(10957), (2000, 1, 1));
    // 2024-01-01 = 19723 days since epoch
    assert_eq!(days_to_ymd(19723), (2024, 1, 1));
    // 2026-03-13 = 20525 days since epoch
    assert_eq!(days_to_ymd(20525), (2026, 3, 13));
}

#[test]
fn test_days_to_ymd_leap_day() {
    // 2000-02-29 = 11016 days since epoch
    assert_eq!(days_to_ymd(11016), (2000, 2, 29));
}

#[test]
fn days_to_ymd_before_epoch() {
    assert_eq!(days_to_ymd(-1), (1969, 12, 31));
    assert_eq!(days_to_ymd(-719468), (0, 3, 1));
}

#[test]
fn slug_cut_falls_on_a_char_boundary() {
    let cut_inside = format!("{}テ", "a".repeat(63));
    assert_eq!(theme_slug(&cut_inside), "a".repeat(63));
    let cut_after = format!("{}テ", "a".repeat(61));
    assert_eq!(theme_slug(&cut_after), cut_after);
    assert!(theme_slug(&"é".repeat(40)).len() <= 64);
}
