use license_core::backup::{fingerprint, BackupScheduler};
use license_core::download::{DownloadTokens, TOKEN_LIFETIME};
use license_core::license::{License, LicenseType};
use license_core::magic::{fnv_extend, generate_magic, FNV_OFFSET};
use license_core::utils::{format_date, format_duration};

fn row(key: &str, blocked: bool) -> License {
    License {
        key: key.to_string(),
        tg_user_id: 1,
        license_type: LicenseType::Trial,
        expires_at: 1000,
        is_blocked: blocked,
        created_at: 0,
        hwid_hash: None,
        max_sessions: 1,
    }
}

#[test]
fn magic_is_fnv1a_of_session_then_secret() {
    assert_eq!(generate_magic("", ""), FNV_OFFSET as i64);
    assert_eq!(generate_magic("a", ""), -5808556873153909620);
    assert_eq!(generate_magic("a", "SECRET-REDACTED"), -2047885385532562277);
    assert_eq!(generate_magic("aSECRET-REDACTED", ""), generate_magic("a", "SECRET-REDACTED"));
    assert_ne!(generate_magic("b", "SECRET-REDACTED"), generate_magic("a", "SECRET-REDACTED"));
    assert_eq!(fnv_extend(FNV_OFFSET, b"a") as i64, -5808556873153909620);
}

#[test]
fn scenario_download_token_lifetime() {
    let t0 = 5_000;
    let mut tokens = DownloadTokens::new();
    let token = tokens.issue(&"1.2.3".to_string(), t0);
    assert_eq!(token.len(), 36);
    assert_eq!(TOKEN_LIFETIME, 600);
    assert_eq!(tokens.redeem(&token, t0 + 599).as_deref(), Some("1.2.3"));
    // redeeming does not consume the token
    assert_eq!(tokens.redeem(&token, t0 + 599).as_deref(), Some("1.2.3"));
    assert_eq!(tokens.redeem(&token, t0 + 600), None);
    assert_eq!(tokens.redeem(&token, t0 + 601), None);
    assert_eq!(tokens.redeem(&"unknown".to_string(), t0), None);
}

#[test]
fn sweep_drops_only_expired_tokens() {
    let mut tokens = DownloadTokens::new();
    let old = tokens.issue(&"1.0".to_string(), 0);
    let young = tokens.issue(&"2.0".to_string(), 500);
    tokens.sweep(700);
    assert_eq!(tokens.redeem(&old, 0), None);
    assert_eq!(tokens.redeem(&young, 700).as_deref(), Some("2.0"));
}

#[test]
fn fingerprint_tracks_row_content() {
    let a = vec![row("k1", false), row("k2", false)];
    let b = vec![row("k1", false), row("k2", true)];
    assert_eq!(fingerprint(&a), fingerprint(&vec![row("k1", false), row("k2", false)]));
    assert_ne!(fingerprint(&a), fingerprint(&b));
    assert_eq!(fingerprint(&Vec::new()), FNV_OFFSET);
}

#[test]
fn backup_ticks_deliver_only_on_change() {
    let mut s = BackupScheduler::new();
    let f1 = fingerprint(&vec![row("k1", false)]);
    let f2 = fingerprint(&vec![row("k1", true)]);
    assert!(s.try_begin());
    assert!(!s.try_begin());
    assert!(!s.finish(f1)); // first run only records
    assert!(s.try_begin());
    assert!(!s.finish(f1)); // unchanged
    assert!(s.try_begin());
    assert!(s.finish(f2)); // changed
    assert!(s.try_begin());
    assert!(!s.finish(f2)); // no mutation since
    assert!(s.try_begin());
    s.abort();
    assert!(s.try_begin());
}

#[test]
fn dates_and_durations() {
    assert_eq!(format_date(0).as_deref(), Some("01.01.1970 00:00"));
    assert_eq!(format_date(1765735200).as_deref(), Some("14.12.2025 18:00"));
    assert_eq!(format_date(i64::MAX), None);
    assert_eq!(format_duration(0), "0d 0h 0m");
    assert_eq!(format_duration(90061), "1d 1h 1m");
    assert_eq!(format_duration(3 * 86400 + 5 * 3600 + 59 * 60 + 59), "3d 5h 59m");
    assert_eq!(format_duration(-90061), "-1d -1h -1m");
}
