//! License records and their lifecycle rules: creation, validation,
//! extension, blocking, first-use hardware binding and promotional claims.
//!
//! Timestamps are whole seconds since the Unix epoch (UTC).
use vstd::prelude::*;
use crate::error::{Error, Promo};
use crate::ident::fresh_key;

verus! {

pub const SECONDS_PER_DAY: i64 = 86400;

/// Concurrent sessions granted to a freshly created license.
pub const DEFAULT_MAX_SESSIONS: u32 = 1;

/// Length of a trial granted by a promotional claim, in days.
pub const PROMO_TRIAL_DAYS: u64 = 7;

/// First second of the promotional window (2025-12-14 18:00:00 UTC).
pub const PROMO_START: i64 = 1765735200;

/// Last second of the promotional window (2025-12-21 23:59:59 UTC).
pub const PROMO_END: i64 = 1766361599;

#[derive(Debug, Clone, Copy, PartialEq, Eq, Structural)]
pub enum LicenseType {
    Trial,
    Pro,
}

/// One row of the license table.
#[derive(Debug, Clone)]
pub struct License {
    /// Opaque, unguessable key.
    pub key: String,
    /// Chat id of the owning user.
    pub tg_user_id: i64,
    pub license_type: LicenseType,
    pub expires_at: i64,
    pub is_blocked: bool,
    pub created_at: i64,
    /// Hardware fingerprint bound on first successful heartbeat.
    pub hwid_hash: Option<String>,
    pub max_sessions: u32,
}

/// A license is usable iff it is not blocked and expires strictly after `now`.
pub open spec fn usable(l: License, now: i64) -> bool {
    !l.is_blocked && l.expires_at > now
}

/// The expiry after extending by `days`: counted from the later of `now` and
/// the current expiry.
pub open spec fn extended_expiry(old_expiry: i64, now: i64, days: u64) -> int {
    let base = if old_expiry < now { now } else { old_expiry };
    base + days * SECONDS_PER_DAY
}

/// The expiry of a license created at `now` for `days` days.
pub open spec fn created_expiry(now: i64, days: u64) -> int {
    now + days * SECONDS_PER_DAY
}

pub open spec fn fits_i64(x: int) -> bool {
    i64::MIN <= x <= i64::MAX
}

pub open spec fn in_promo_window(now: i64) -> bool {
    PROMO_START <= now <= PROMO_END
}

/// A fresh license as `create` builds it, up to its random key.
pub open spec fn fresh_license(l: License, owner: i64, ty: LicenseType, days: u64, now: i64) -> bool {
    &&& l.tg_user_id == owner
    &&& l.license_type == ty
    &&& l.expires_at == created_expiry(now, days)
    &&& !l.is_blocked
    &&& l.created_at == now
    &&& l.hwid_hash.is_none()
    &&& l.max_sessions == DEFAULT_MAX_SESSIONS
    &&& l.key@.len() == 36
}

/// Lifecycle operations on license records. The durable store is read and
/// written around these calls; each takes the stored record and returns the
/// record to store.
pub struct LicenseService;

impl LicenseService {
    /// A new license for `owner` of type `ty`, valid for `days` days from
    /// `now` (zero days gives an already expired placeholder).
    pub fn create(owner: i64, ty: LicenseType, days: u64, now: i64) -> (r: Result<License, Error>)
        ensures
            fits_i64(created_expiry(now, days)) <==> r is Ok,
            r matches Ok(l) ==> fresh_license(l, owner, ty, days, now),
            r matches Err(e) ==> e is InvalidArgs,
    {
        let exp: i128 = now as i128 + (days as i128) * 86400i128;
        if exp > i64::MAX as i128 {
            return Err(Error::InvalidArgs("Duration is too long".to_owned()));
        }
        let key = fresh_key();
        Ok(License {
            key,
            tg_user_id: owner,
            license_type: ty,
            expires_at: exp as i64,
            is_blocked: false,
            created_at: now,
            hwid_hash: None,
            max_sessions: DEFAULT_MAX_SESSIONS,
        })
    }

    /// The single authorization gate: `stored` is the record found under the
    /// key, if any.
    pub fn validate(stored: Option<License>, now: i64) -> (r: Result<License, Error>)
        ensures
            r is Ok <==> (stored matches Some(l) && usable(l, now)),
            stored is None ==> r matches Err(Error::LicenseNotFound),
            stored matches Some(l) ==> (usable(l, now) ==> r == Ok::<License, Error>(l)),
            stored matches Some(l) ==> (!usable(l, now) ==> r matches Err(Error::LicenseInvalid)),
    {
        match stored {
            None => Err(Error::LicenseNotFound),
            Some(l) => {
                if l.is_blocked || l.expires_at <= now {
                    Err(Error::LicenseInvalid)
                } else {
                    Ok(l)
                }
            },
        }
    }

    /// Extends `l` by `days` days from the later of `now` and its expiry, and
    /// clears its blocked flag.
    pub fn extend(l: License, days: u64, now: i64) -> (r: Result<License, Error>)
        ensures
            fits_i64(extended_expiry(l.expires_at, now, days)) <==> r is Ok,
            r matches Ok(n) ==> n == (License {
                expires_at: extended_expiry(l.expires_at, now, days) as i64,
                is_blocked: false,
                ..l
            }),
            r matches Ok(n) ==> n.expires_at >= l.expires_at && n.expires_at >= now && !n.is_blocked,
            r matches Err(e) ==> e is InvalidArgs,
    {
        let base: i64 = if l.expires_at < now { now } else { l.expires_at };
        let exp: i128 = base as i128 + (days as i128) * 86400i128;
        if exp > i64::MAX as i128 {
            return Err(Error::InvalidArgs("Duration is too long".to_owned()));
        }
        Ok(License { expires_at: exp as i64, is_blocked: false, ..l })
    }

    /// Sets the blocked flag; setting it to its current value changes nothing.
    pub fn set_blocked(l: License, blocked: bool) -> (r: License)
        ensures
            r == (License { is_blocked: blocked, ..l }),
    {
        License { is_blocked: blocked, ..l }
    }

    /// The hardware lock. An unbound license is bound to `machine_id`
    /// (`Ok(Some(..))`, the record to store); a license bound to `machine_id`
    /// passes unchanged (`Ok(None)`); one bound to another fingerprint is
    /// refused.
    pub fn bind_hwid(l: &License, machine_id: &String) -> (r: Result<Option<License>, Error>)
        ensures
            l.hwid_hash is None ==> r == Ok::<Option<License>, Error>(
                Some(License { hwid_hash: Some(*machine_id), ..*l }),
            ),
            l.hwid_hash matches Some(h) ==> (h@ == machine_id@ ==> r == Ok::<Option<License>, Error>(None)),
            l.hwid_hash matches Some(h) ==> (h@ != machine_id@ ==> r matches Err(Error::HardwareMismatch)),
    {
        match &l.hwid_hash {
            None => Ok(Some(License { hwid_hash: Some(machine_id.clone()), ..l.clone_record() })),
            Some(h) => {
                if h.eq(machine_id) {
                    Ok(None)
                } else {
                    Err(Error::HardwareMismatch)
                }
            },
        }
    }

    /// Whether `now` lies in the promotional window (both ends included).
    pub fn is_promo_active(now: i64) -> (r: bool)
        ensures
            r == in_promo_window(now),
    {
        PROMO_START <= now && now <= PROMO_END
    }

    /// A promotional trial for `owner`; `already_claimed` says whether the
    /// owner holds a claim for this promotion. The caller stores the license
    /// and the claim record together, or neither.
    pub fn claim_promo(owner: i64, already_claimed: bool, now: i64) -> (r: Result<License, Error>)
        ensures
            !in_promo_window(now) ==> r matches Err(Error::Promo(Promo::Inactive)),
            in_promo_window(now) && already_claimed ==> r matches Err(Error::Promo(Promo::Claimed)),
            in_promo_window(now) && !already_claimed ==> (r matches Ok(l) && fresh_license(
                l,
                owner,
                LicenseType::Trial,
                PROMO_TRIAL_DAYS,
                now,
            )),
    {
        if !Self::is_promo_active(now) {
            return Err(Error::Promo(Promo::Inactive));
        }
        if already_claimed {
            return Err(Error::Promo(Promo::Claimed));
        }
        Self::create(owner, LicenseType::Trial, PROMO_TRIAL_DAYS, now)
    }
}

impl License {
    /// A field-for-field copy.
    pub fn clone_record(&self) -> (r: License)
        ensures
            r == *self,
    {
        License {
            key: self.key.clone(),
            tg_user_id: self.tg_user_id,
            license_type: self.license_type,
            expires_at: self.expires_at,
            is_blocked: self.is_blocked,
            created_at: self.created_at,
            hwid_hash: match &self.hwid_hash {
                None => None,
                Some(h) => Some(h.clone()),
            },
            max_sessions: self.max_sessions,
        }
    }
}

} // verus!
