//! The error taxonomy shared by the registry, the heartbeat protocol and the
//! download path, with its client-facing status codes and messages.
use vstd::prelude::*;

verus! {

/// Why a promotional claim was refused.
#[derive(Debug, Clone, Copy, PartialEq, Eq, Structural)]
pub enum Promo {
    /// The request came outside the promotional window.
    Inactive,
    /// The owner already holds a claim for this promotion.
    Claimed,
}

#[derive(Debug, Clone)]
pub enum Error {
    LicenseNotFound,
    UserNotFound,
    /// The license exists but is expired or blocked.
    LicenseInvalid,
    /// The license is bound to another hardware fingerprint.
    HardwareMismatch,
    SessionLimitReached,
    Promo(Promo),
    BuildNotFound,
    BuildInactive,
    BuildAlreadyActive,
    InvalidArgs(String),
    /// A failure of the durable store; the text stays server-side.
    Storage(String),
    /// A malformed client payload.
    Decode,
    Internal(String),
}

impl Error {
    /// The HTTP status that an error is reported with.
    pub open spec fn status_spec(&self) -> u16 {
        match self {
            Error::LicenseNotFound => 404,
            Error::UserNotFound => 404,
            Error::LicenseInvalid => 403,
            Error::HardwareMismatch => 403,
            Error::SessionLimitReached => 409,
            Error::Promo(Promo::Inactive) => 400,
            Error::Promo(Promo::Claimed) => 409,
            Error::BuildNotFound => 404,
            Error::BuildInactive => 400,
            Error::BuildAlreadyActive => 400,
            Error::InvalidArgs(_) => 400,
            Error::Storage(_) => 500,
            Error::Decode => 400,
            Error::Internal(_) => 500,
        }
    }

    /// The short, machine-stable reason reported to a client; storage and
    /// internal details are never part of it.
    pub open spec fn reason_spec(&self) -> Seq<char> {
        match self {
            Error::LicenseNotFound => "License not found"@,
            Error::UserNotFound => "User not found"@,
            Error::LicenseInvalid => "License expired or blocked"@,
            Error::HardwareMismatch => "HWID mismatch"@,
            Error::SessionLimitReached => "Session limit reached"@,
            Error::Promo(Promo::Inactive) => "Promo is not active"@,
            Error::Promo(Promo::Claimed) => "Promo already claimed"@,
            Error::BuildNotFound => "Build not found"@,
            Error::BuildInactive => "Build already yanked"@,
            Error::BuildAlreadyActive => "Build already active"@,
            Error::InvalidArgs(msg) => msg@,
            Error::Storage(_) => "Database error"@,
            Error::Decode => "Invalid payload"@,
            Error::Internal(_) => "Internal error"@,
        }
    }

    /// The message shown to a person in the chat front end.
    pub open spec fn user_message_spec(&self) -> Seq<char> {
        match self {
            Error::LicenseNotFound => "Key not found"@,
            Error::UserNotFound => "User not found"@,
            Error::LicenseInvalid => "License expired or blocked"@,
            Error::HardwareMismatch => "License is bound to another machine"@,
            Error::SessionLimitReached => "Session limit reached"@,
            Error::Promo(Promo::Inactive) => "Promo is not active right now"@,
            Error::Promo(Promo::Claimed) => "You have already claimed this promo"@,
            Error::BuildNotFound => "Build not found"@,
            Error::BuildInactive => "Build is already yanked"@,
            Error::BuildAlreadyActive => "Build is already active"@,
            Error::InvalidArgs(msg) => msg@,
            Error::Storage(msg) => "Database error: "@ + msg@,
            Error::Decode => "Invalid payload"@,
            Error::Internal(msg) => "Internal error: "@ + msg@,
        }
    }

    pub fn status(&self) -> (r: u16)
        ensures
            r == self.status_spec(),
    {
        match self {
            Error::LicenseNotFound => 404,
            Error::UserNotFound => 404,
            Error::LicenseInvalid => 403,
            Error::HardwareMismatch => 403,
            Error::SessionLimitReached => 409,
            Error::Promo(Promo::Inactive) => 400,
            Error::Promo(Promo::Claimed) => 409,
            Error::BuildNotFound => 404,
            Error::BuildInactive => 400,
            Error::BuildAlreadyActive => 400,
            Error::InvalidArgs(_) => 400,
            Error::Storage(_) => 500,
            Error::Decode => 400,
            Error::Internal(_) => 500,
        }
    }

    pub fn reason(&self) -> (r: String)
        ensures
            r@ == self.reason_spec(),
    {
        match self {
            Error::LicenseNotFound => "License not found".to_owned(),
            Error::UserNotFound => "User not found".to_owned(),
            Error::LicenseInvalid => "License expired or blocked".to_owned(),
            Error::HardwareMismatch => "HWID mismatch".to_owned(),
            Error::SessionLimitReached => "Session limit reached".to_owned(),
            Error::Promo(Promo::Inactive) => "Promo is not active".to_owned(),
            Error::Promo(Promo::Claimed) => "Promo already claimed".to_owned(),
            Error::BuildNotFound => "Build not found".to_owned(),
            Error::BuildInactive => "Build already yanked".to_owned(),
            Error::BuildAlreadyActive => "Build already active".to_owned(),
            Error::InvalidArgs(msg) => msg.clone(),
            Error::Storage(_) => "Database error".to_owned(),
            Error::Decode => "Invalid payload".to_owned(),
            Error::Internal(_) => "Internal error".to_owned(),
        }
    }

    pub fn user_message(&self) -> (r: String)
        ensures
            r@ == self.user_message_spec(),
    {
        match self {
            Error::LicenseNotFound => "Key not found".to_owned(),
            Error::UserNotFound => "User not found".to_owned(),
            Error::LicenseInvalid => "License expired or blocked".to_owned(),
            Error::HardwareMismatch => "License is bound to another machine".to_owned(),
            Error::SessionLimitReached => "Session limit reached".to_owned(),
            Error::Promo(Promo::Inactive) => "Promo is not active right now".to_owned(),
            Error::Promo(Promo::Claimed) => "You have already claimed this promo".to_owned(),
            Error::BuildNotFound => "Build not found".to_owned(),
            Error::BuildInactive => "Build is already yanked".to_owned(),
            Error::BuildAlreadyActive => "Build is already active".to_owned(),
            Error::InvalidArgs(msg) => msg.clone(),
            Error::Storage(msg) => {
                let mut s = "Database error: ".to_owned();
                s.append(msg.as_str());
                s
            },
            Error::Decode => "Invalid payload".to_owned(),
            Error::Internal(msg) => {
                let mut s = "Internal error: ".to_owned();
                s.append(msg.as_str());
                s
            },
        }
    }
}

} // verus!
