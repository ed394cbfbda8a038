//! The heartbeat protocol: what a client check-in does to the session
//! registry and what it answers, and the checks a stats upload must pass.
//!
//! The durable store is read by the caller: `fast_path` needs no record;
//! `check_in` takes the result of looking the key up.
use vstd::prelude::*;
use crate::codec::{base64_decode, base64_spec, decode_telemetry, decompress, gunzip_of};
use crate::error::Error;
use crate::license::{License, LicenseService, usable};
use crate::magic::{generate_magic, magic_of, utf8_of};
use crate::sessions::{Outcome, Session, count_of, SessionStore, admits, after_admission, held, live_under, refreshed};
use crate::text::{decimal, u64_text};

verus! {

/// A client check-in.
pub struct HeartbeatReq {
    pub key: String,
    pub machine_id: String,
    pub session_id: String,
    /// Optional telemetry: base64 text of a gzip stream.
    pub stats: Option<String>,
}

/// The answer to a check-in.
pub struct HeartbeatRes {
    pub success: bool,
    pub message: Option<String>,
    pub magic_token: Option<i64>,
}

impl HeartbeatRes {
    pub fn ok(magic: i64) -> (r: HeartbeatRes)
        ensures
            r.success,
            r.message is None,
            r.magic_token == Some(magic),
    {
        HeartbeatRes { success: true, message: None, magic_token: Some(magic) }
    }

    pub fn invalid(message: String) -> (r: HeartbeatRes)
        ensures
            !r.success,
            r.message == Some(message),
            r.magic_token is None,
    {
        HeartbeatRes { success: false, message: Some(message), magic_token: None }
    }
}

/// Decoded telemetry, for the stats collaborator.
pub struct Telemetry {
    /// Chat id of the license owner.
    pub owner: i64,
    /// Sessions held under the key after the check-in.
    pub active: usize,
    /// The decompressed payload.
    pub payload: Vec<u8>,
}

/// What a slow-path check-in answers and what the caller must still do.
pub struct HeartbeatReply {
    /// HTTP status: 200, 401, 403, 409 or 500.
    pub status: u16,
    pub body: HeartbeatRes,
    /// A first-use hardware binding: the license record to store.
    pub bind: Option<License>,
    /// Telemetry that decoded; a blob that did not is dropped.
    pub telemetry: Option<Telemetry>,
}

/// A failed answer carrying `msg`.
pub open spec fn refused(res: HeartbeatRes, msg: Seq<char>) -> bool {
    &&& !res.success
    &&& res.message matches Some(m) && m@ == msg
    &&& res.magic_token is None
}

/// A successful answer carrying the liveness token of `sid` under `secret`.
pub open spec fn accepted(res: HeartbeatRes, sid: Seq<char>, secret: Seq<char>) -> bool {
    &&& res.success
    &&& res.message is None
    &&& res.magic_token == Some(magic_of(sid, secret))
}

/// The license bound to a machine other than `machine_id`.
pub open spec fn hw_mismatch(l: License, machine_id: Seq<char>) -> bool {
    l.hwid_hash matches Some(h) && h@ != machine_id
}

pub open spec fn limit_text(current: nat, max: nat) -> Seq<char> {
    "Session limit reached ("@ + decimal(current) + "/"@ + decimal(max) + ")"@
}

fn limit_message(current: usize, max: usize) -> (r: String)
    ensures
        r@ == limit_text(current as nat, max as nat),
{
    let mut s = "Session limit reached (".to_owned();
    s.append(u64_text(current as u64).as_str());
    s.append("/");
    s.append(u64_text(max as u64).as_str());
    s.append(")");
    s
}

/// A check-in of a usable license whose hardware lock passed: the registry
/// goes through admission, a first-use binding is handed back, and the
/// answer is success or the session limit.
pub open spec fn admitted(
    r: HeartbeatReply,
    l: License,
    m: Map<Seq<char>, Seq<Session>>,
    m2: Map<Seq<char>, Seq<Session>>,
    req: &HeartbeatReq,
    secret: Seq<char>,
    now: i64,
    timeout: i64,
) -> bool {
    let max = l.max_sessions as usize;
    let ok = admits(m, req.key@, req.session_id@, max, now, timeout);
    &&& m2 == after_admission(m, req.key, req.session_id, req.machine_id, max, now, timeout)
    &&& l.hwid_hash is None ==> r.bind == Some(License { hwid_hash: Some(req.machine_id), ..l })
    &&& l.hwid_hash is Some ==> r.bind is None
    &&& ok ==> r.status == 200 && accepted(r.body, req.session_id@, secret)
    &&& !ok ==> r.status == 409 && refused(r.body, limit_text(live_under(m, req.key@, now, timeout).len(), max as nat))
        && r.telemetry is None
    &&& ok ==> (r.telemetry is Some <==> telemetry_of(req.stats) is Some)
    &&& r.telemetry matches Some(t) ==> t.owner == l.tg_user_id && telemetry_of(req.stats) == Some(t.payload@)
        && t.active == count_of(m2, req.key@)
}

/// The decoded payload of an attached telemetry blob, where it decodes.
pub open spec fn telemetry_of(stats: Option<String>) -> Option<Seq<u8>> {
    match stats {
        None => None,
        Some(b) => match base64_spec(utf8_of(b@)) {
            None => None,
            Some(z) => gunzip_of(z),
        },
    }
}

/// The fast path: a session already held under the key is refreshed and
/// accepted without reading the license; otherwise nothing changes and
/// `None` comes back.
pub fn fast_path(store: &mut SessionStore, req: &HeartbeatReq, secret: &str, now: i64) -> (r: Option<HeartbeatRes>)
    ensures
        held(old(store)@, req.key@, req.session_id@) ==> (r matches Some(res) && accepted(res, req.session_id@, secret@)),
        !held(old(store)@, req.key@, req.session_id@) ==> r is None && final(store)@ == old(store)@,
        forall|k: Seq<char>| count_of(final(store)@, k) == count_of(old(store)@, k),
        held(old(store)@, req.key@, req.session_id@) ==> final(store)@ == old(store)@.insert(
            req.key@,
            refreshed(old(store)@[req.key@], req.session_id@, now),
        ),
{
    if store.touch(&req.key, &req.session_id, now) {
        Some(HeartbeatRes::ok(generate_magic(req.session_id.as_str(), secret)))
    } else {
        None
    }
}

/// The slow path. `stored` is the result of looking the key up in the
/// durable store; `timeout` is the idle time after which a session no longer
/// counts against the limit.
pub fn check_in(
    store: &mut SessionStore,
    req: &HeartbeatReq,
    stored: Result<Option<License>, Error>,
    secret: &str,
    now: i64,
    timeout: i64,
) -> (r: HeartbeatReply)
    ensures
        stored is Err ==> r.status == 500 && refused(r.body, "Internal error"@) && r.bind is None
            && r.telemetry is None && final(store)@ == old(store)@,
        stored matches Ok(None) ==> r.status == 401 && refused(r.body, "Invalid license"@) && r.bind is None
            && r.telemetry is None && final(store)@ == old(store)@.remove(req.key@),
        stored matches Ok(Some(l)) ==> (!usable(l, now) ==> r.status == 403 && refused(
            r.body,
            "License expired or blocked"@,
        ) && r.bind is None && r.telemetry is None && final(store)@ == old(store)@.remove(req.key@)),
        stored matches Ok(Some(l)) ==> (usable(l, now) && hw_mismatch(l, req.machine_id@) ==> r.status == 403
            && refused(r.body, "HWID mismatch"@) && r.bind is None && r.telemetry is None && final(store)@ == old(store)@),
        stored matches Ok(Some(l)) ==> (l.hwid_hash is Some ==> r.bind is None),
        stored matches Ok(Some(l)) ==> (usable(l, now) && !hw_mismatch(l, req.machine_id@) ==> admitted(
            r,
            l,
            old(store)@,
            final(store)@,
            req,
            secret@,
            now,
            timeout,
        )),
{
    let found = match stored {
        Err(_) => {
            return HeartbeatReply {
                status: 500,
                body: HeartbeatRes::invalid("Internal error".to_owned()),
                bind: None,
                telemetry: None,
            };
        },
        Ok(found) => found,
    };
    let license = match LicenseService::validate(found, now) {
        Ok(l) => l,
        Err(Error::LicenseNotFound) => {
            store.drop_all(&req.key);
            return HeartbeatReply {
                status: 401,
                body: HeartbeatRes::invalid("Invalid license".to_owned()),
                bind: None,
                telemetry: None,
            };
        },
        Err(_) => {
            store.drop_all(&req.key);
            return HeartbeatReply {
                status: 403,
                body: HeartbeatRes::invalid("License expired or blocked".to_owned()),
                bind: None,
                telemetry: None,
            };
        },
    };
    let bind = match LicenseService::bind_hwid(&license, &req.machine_id) {
        Ok(b) => b,
        Err(_) => {
            return HeartbeatReply {
                status: 403,
                body: HeartbeatRes::invalid("HWID mismatch".to_owned()),
                bind: None,
                telemetry: None,
            };
        },
    };
    let max = license.max_sessions as usize;
    match store.touch_or_insert(&req.key, &req.session_id, &req.machine_id, max, now, timeout) {
        Outcome::LimitReached { current, max } => {
            return HeartbeatReply {
                status: 409,
                body: HeartbeatRes::invalid(limit_message(current, max)),
                bind,
                telemetry: None,
            };
        },
        _ => {},
    }
    let telemetry = match &req.stats {
        None => None,
        Some(blob) => match decode_telemetry(blob.as_str()) {
            Ok(payload) => Some(Telemetry { owner: license.tg_user_id, active: store.count(&req.key), payload }),
            Err(_) => None,
        },
    };
    HeartbeatReply {
        status: 200,
        body: HeartbeatRes::ok(generate_magic(req.session_id.as_str(), secret)),
        bind,
        telemetry,
    }
}

/// A metrics event: base64 text of a gzip stream holding one JSON event.
pub struct MetricsReq {
    pub stats: String,
}

/// A stats submission from a client with a live session.
pub struct StatsReq {
    pub key: String,
    pub session_id: String,
    /// Base64 text of a gzip stream.
    pub data: String,
}

pub struct StatsRes {
    pub success: bool,
    pub message: Option<String>,
}

/// What the stats gate answers; on success the decoded payload goes to the
/// stats collaborator.
pub struct StatsReply {
    /// HTTP status: 200, 400 or 401.
    pub status: u16,
    pub body: StatsRes,
    pub telemetry: Option<Telemetry>,
}

pub open spec fn stats_refused(r: StatsReply, status: u16, msg: Seq<char>) -> bool {
    &&& r.status == status
    &&& !r.body.success
    &&& r.body.message matches Some(m) && m@ == msg
    &&& r.telemetry is None
}

fn stats_failure(status: u16, msg: &str) -> (r: StatsReply)
    ensures
        stats_refused(r, status, msg@),
{
    StatsReply {
        status,
        body: StatsRes { success: false, message: Some(msg.to_owned()) },
        telemetry: None,
    }
}

/// The checks a stats upload must pass: the license must be usable and
/// the session live under it (checked against the registry alone), and the
/// payload must decode.
pub fn check_stats(
    store: &SessionStore,
    req: &StatsReq,
    stored: Result<Option<License>, Error>,
    now: i64,
) -> (r: StatsReply)
    ensures
        !(stored matches Ok(Some(l)) && usable(l, now)) ==> stats_refused(r, 401, "Invalid license"@),
        stored matches Ok(Some(l)) ==> (usable(l, now) ==> {
            let b = base64_spec(utf8_of(req.data@));
            &&& !held(store@, req.key@, req.session_id@) ==> stats_refused(r, 401, "Invalid session"@)
            &&& held(store@, req.key@, req.session_id@) && b is None ==> stats_refused(r, 400, "Invalid base64 encoding"@)
            &&& held(store@, req.key@, req.session_id@) && (b matches Some(z) && gunzip_of(z) is None)
                ==> stats_refused(r, 400, "Invalid stats data"@)
            &&& held(store@, req.key@, req.session_id@) && (b matches Some(z) && gunzip_of(z) is Some) ==> (r.status == 200
                && r.body.success && r.body.message is None && (r.telemetry matches Some(t) && t.owner == l.tg_user_id
                && Some(t.payload@) == gunzip_of(b->Some_0) && t.active == count_of(store@, req.key@)))
        }),
{
    let found = match stored {
        Err(_) => {
            return stats_failure(401, "Invalid license");
        },
        Ok(found) => found,
    };
    let license = match LicenseService::validate(found, now) {
        Ok(l) => l,
        Err(_) => {
            return stats_failure(401, "Invalid license");
        },
    };
    if !store.has_session(&req.key, &req.session_id) {
        return stats_failure(401, "Invalid session");
    }
    let compressed = match base64_decode(req.data.as_str()) {
        Ok(c) => c,
        Err(_) => {
            return stats_failure(400, "Invalid base64 encoding");
        },
    };
    match decompress(compressed.as_slice()) {
        Err(_) => stats_failure(400, "Invalid stats data"),
        Ok(payload) => StatsReply {
            status: 200,
            body: StatsRes { success: true, message: None },
            telemetry: Some(Telemetry { owner: license.tg_user_id, active: store.count(&req.key), payload }),
        },
    }
}

} // verus!
