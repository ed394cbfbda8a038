use std::io::Write;

use license_core::error::Error;
use license_core::heartbeat::{check_in, check_stats, fast_path, HeartbeatReq, HeartbeatRes, StatsReq};
use license_core::license::{License, LicenseType};
use license_core::magic::generate_magic;
use license_core::sessions::SessionStore;

const SECRET: &str = "SECRET-REDACTED";
const TIMEOUT: i64 = 120;

fn license(expires_at: i64, max_sessions: u32) -> License {
    License {
        key: "k1".to_string(),
        tg_user_id: 42,
        license_type: LicenseType::Pro,
        expires_at,
        is_blocked: false,
        created_at: 0,
        hwid_hash: None,
        max_sessions,
    }
}

fn req(session: &str, machine: &str, stats: Option<String>) -> HeartbeatReq {
    HeartbeatReq {
        key: "k1".to_string(),
        machine_id: machine.to_string(),
        session_id: session.to_string(),
        stats,
    }
}

fn gzip(data: &[u8]) -> Vec<u8> {
    let mut enc = flate2::write::GzEncoder::new(Vec::new(), flate2::Compression::default());
    enc.write_all(data).unwrap();
    enc.finish().unwrap()
}

fn base64(data: &[u8]) -> String {
    const A: &[u8] = b"ABCDEFGHIJKLMNOPQRSTUVWXYZabcdefghijklmnopqrstuvwxyz0123456789+/";
    let mut out = String::new();
    for chunk in data.chunks(3) {
        let b = [chunk[0], *chunk.get(1).unwrap_or(&0), *chunk.get(2).unwrap_or(&0)];
        let n = ((b[0] as u32) << 16) | ((b[1] as u32) << 8) | b[2] as u32;
        for i in 0..4 {
            if i <= chunk.len() {
                out.push(A[((n >> (18 - 6 * i)) & 63) as usize] as char);
            } else {
                out.push('=');
            }
        }
    }
    out
}

#[test]
fn response_constructors() {
    let ok = HeartbeatRes::ok(7);
    assert!(ok.success);
    assert_eq!(ok.magic_token, Some(7));
    assert!(ok.message.is_none());
    let bad = HeartbeatRes::invalid("nope".to_string());
    assert!(!bad.success);
    assert_eq!(bad.message.as_deref(), Some("nope"));
    assert!(bad.magic_token.is_none());
}

#[test]
fn scenario_session_limit_and_fast_path_gap() {
    let now = 1_000_000;
    let mut store = SessionStore::new();
    let mut lic = license(now + 86400, 1);

    let r1 = req("a", "m1", None);
    assert!(fast_path(&mut store, &r1, SECRET, now).is_none());
    let reply = check_in(&mut store, &r1, Ok(Some(lic.clone_record())), SECRET, now, TIMEOUT);
    assert_eq!(reply.status, 200);
    assert!(reply.body.success);
    assert_eq!(reply.body.magic_token, Some(generate_magic("a", SECRET)));
    let bound = reply.bind.expect("first use binds the machine");
    assert_eq!(bound.hwid_hash.as_deref(), Some("m1"));
    lic = bound;

    let r2 = req("b", "m1", None);
    assert!(fast_path(&mut store, &r2, SECRET, now + 1).is_none());
    let reply = check_in(&mut store, &r2, Ok(Some(lic.clone_record())), SECRET, now + 1, TIMEOUT);
    assert_eq!(reply.status, 409);
    assert_eq!(reply.body.message.as_deref(), Some("Session limit reached (1/1)"));
    assert!(reply.bind.is_none());

    // same session from another machine: the fast path accepts it
    let r3 = req("a", "m2", None);
    let res = fast_path(&mut store, &r3, SECRET, now + 2).expect("fast path");
    assert!(res.success);
    assert_eq!(res.magic_token, Some(generate_magic("a", SECRET)));
    assert_eq!(store.count(&"k1".to_string()), 1);
}

#[test]
fn scenario_expiry_drops_sessions() {
    let t = 2_000_000;
    let mut store = SessionStore::new();
    let lic = license(t, 5);
    let r1 = req("s1", "m", None);
    let reply = check_in(&mut store, &r1, Ok(Some(lic.clone_record())), SECRET, t - 1, TIMEOUT);
    assert_eq!(reply.status, 200);
    assert_eq!(store.count(&"k1".to_string()), 1);

    let r2 = req("s2", "m", None);
    assert!(fast_path(&mut store, &r2, SECRET, t + 1).is_none());
    let reply = check_in(&mut store, &r2, Ok(Some(lic)), SECRET, t + 1, TIMEOUT);
    assert_eq!(reply.status, 403);
    assert_eq!(reply.body.message.as_deref(), Some("License expired or blocked"));
    assert_eq!(store.count(&"k1".to_string()), 0);
}

#[test]
fn unknown_key_is_401_and_drops_sessions() {
    let mut store = SessionStore::new();
    store.touch_or_insert(&"k1".to_string(), &"old".to_string(), &"m".to_string(), 5, 10, TIMEOUT);
    let reply = check_in(&mut store, &req("x", "m", None), Ok(None), SECRET, 20, TIMEOUT);
    assert_eq!(reply.status, 401);
    assert_eq!(reply.body.message.as_deref(), Some("Invalid license"));
    assert_eq!(store.count(&"k1".to_string()), 0);
}

#[test]
fn storage_failure_is_500_and_keeps_sessions() {
    let mut store = SessionStore::new();
    store.touch_or_insert(&"k1".to_string(), &"old".to_string(), &"m".to_string(), 5, 10, TIMEOUT);
    let reply = check_in(&mut store, &req("x", "m", None), Err(Error::Storage("down".to_string())), SECRET, 20, TIMEOUT);
    assert_eq!(reply.status, 500);
    assert_eq!(reply.body.message.as_deref(), Some("Internal error"));
    assert_eq!(store.count(&"k1".to_string()), 1);
}

#[test]
fn hardware_mismatch_is_rejected_without_binding() {
    let mut store = SessionStore::new();
    let mut lic = license(10_000, 5);
    lic.hwid_hash = Some("m1".to_string());
    let reply = check_in(&mut store, &req("s", "m2", None), Ok(Some(lic.clone_record())), SECRET, 100, TIMEOUT);
    assert_eq!(reply.status, 403);
    assert_eq!(reply.body.message.as_deref(), Some("HWID mismatch"));
    assert!(reply.bind.is_none());
    assert_eq!(store.count(&"k1".to_string()), 0);
    let reply = check_in(&mut store, &req("s", "m1", None), Ok(Some(lic)), SECRET, 100, TIMEOUT);
    assert_eq!(reply.status, 200);
    assert!(reply.bind.is_none());
}

#[test]
fn telemetry_is_decoded_and_bad_telemetry_is_ignored() {
    let mut store = SessionStore::new();
    let blob = base64(&gzip(b"{\"uptime\":5}"));
    let reply = check_in(&mut store, &req("s", "m", Some(blob)), Ok(Some(license(10_000, 5))), SECRET, 100, TIMEOUT);
    assert_eq!(reply.status, 200);
    let t = reply.telemetry.expect("telemetry");
    assert_eq!(t.owner, 42);
    assert_eq!(t.active, 1);
    assert_eq!(t.payload, b"{\"uptime\":5}".to_vec());

    let reply = check_in(&mut store, &req("s2", "m", Some("%%%".to_string())), Ok(Some(license(10_000, 5))), SECRET, 100, TIMEOUT);
    assert_eq!(reply.status, 200);
    assert!(reply.telemetry.is_none());
}

#[test]
fn stats_gate_outcomes() {
    let mut store = SessionStore::new();
    let lic = license(10_000, 5);
    store.touch_or_insert(&"k1".to_string(), &"s".to_string(), &"m".to_string(), 5, 10, TIMEOUT);
    let good = base64(&gzip(b"{}"));
    let mk = |sid: &str, data: &str| StatsReq { key: "k1".to_string(), session_id: sid.to_string(), data: data.to_string() };

    let r = check_stats(&store, &mk("s", &good), Ok(None), 20);
    assert_eq!((r.status, r.body.message.as_deref()), (401, Some("Invalid license")));
    let r = check_stats(&store, &mk("zz", &good), Ok(Some(lic.clone_record())), 20);
    assert_eq!((r.status, r.body.message.as_deref()), (401, Some("Invalid session")));
    let r = check_stats(&store, &mk("s", "@@"), Ok(Some(lic.clone_record())), 20);
    assert_eq!((r.status, r.body.message.as_deref()), (400, Some("Invalid base64 encoding")));
    let r = check_stats(&store, &mk("s", "aGVsbG8="), Ok(Some(lic.clone_record())), 20);
    assert_eq!((r.status, r.body.message.as_deref()), (400, Some("Invalid stats data")));
    let r = check_stats(&store, &mk("s", &good), Ok(Some(lic)), 20);
    assert_eq!(r.status, 200);
    assert!(r.body.success);
    let t = r.telemetry.unwrap();
    assert_eq!(t.payload, b"{}".to_vec());
    assert_eq!(t.active, 1);
}
