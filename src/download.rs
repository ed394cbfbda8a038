//! Short-lived download tokens: a random token names an artifact version
//! and can be redeemed, any number of times, while it is young enough.
//! Tokens are anonymous: holding one is the whole authorization.
use vstd::prelude::*;
use dashmap::DashMap;
use crate::concurrent::lists_keys_once;
use crate::ident::fresh_key;

verus! {

/// How long a token stays redeemable, in seconds.
pub const TOKEN_LIFETIME: i64 = 600;

/// The query of a download request.
pub struct DownloadQuery {
    pub token: String,
}

/// What a token stands for.
#[derive(Debug, Clone)]
pub struct IssuedToken {
    pub version: String,
    /// Issue time, in seconds since the Unix epoch.
    pub issued_at: i64,
}

/// The map from token to what it stands for.
pub type TokenMap = DashMap<String, IssuedToken>;

/// What the token map holds, by token view.
pub uninterp spec fn token_table(m: TokenMap) -> Map<Seq<char>, IssuedToken>;

/// Relies on dashmap's `DashMap::new`: an empty map.
#[verifier::external_body]
fn tokens_new() -> (r: TokenMap)
    ensures
        token_table(r) == no_tokens(),
{
    DashMap::new()
}

/// Relies on dashmap's `DashMap::get`: a copy of the entry under `token`.
#[verifier::external_body]
fn tokens_get(m: &TokenMap, token: &String) -> (r: Option<IssuedToken>)
    ensures
        r matches Some(t) ==> token_table(*m).contains_key(token@) && t == token_table(*m)[token@],
        r is None ==> !token_table(*m).contains_key(token@),
{
    m.get(token).map(|e| e.value().clone())
}

/// Relies on dashmap's `DashMap::insert`: `token` now maps to `t`.
#[verifier::external_body]
fn tokens_insert(m: &mut TokenMap, token: String, t: IssuedToken)
    ensures
        token_table(*final(m)) == token_table(*old(m)).insert(token@, t),
{
    m.insert(token, t);
}

/// Relies on dashmap's `DashMap::remove`: `token` no longer maps to anything.
#[verifier::external_body]
fn tokens_remove(m: &mut TokenMap, token: &String)
    ensures
        token_table(*final(m)) == token_table(*old(m)).remove(token@),
{
    m.remove(token);
}

/// Relies on dashmap's `DashMap::iter`: every token once, in no stated order.
#[verifier::external_body]
fn tokens_keys(m: &TokenMap) -> (r: Vec<String>)
    ensures
        lists_keys_once(r@, token_table(*m).dom()),
{
    m.iter().map(|e| e.key().clone()).collect()
}

pub open spec fn no_tokens() -> Map<Seq<char>, IssuedToken> {
    Map::empty()
}

/// A token is redeemable while less than `TOKEN_LIFETIME` seconds passed
/// since it was issued.
pub open spec fn redeemable(t: IssuedToken, now: i64) -> bool {
    now - t.issued_at < TOKEN_LIFETIME
}

/// The tokens that are still redeemable at `now`.
pub open spec fn unexpired(m: Map<Seq<char>, IssuedToken>, now: i64) -> Map<Seq<char>, IssuedToken> {
    Map::new(|k: Seq<char>| m.contains_key(k) && redeemable(m[k], now), |k: Seq<char>| m[k])
}

/// What redeeming `token` at `now` gives.
pub open spec fn redeemed(m: Map<Seq<char>, IssuedToken>, token: Seq<char>, now: i64) -> Option<String> {
    if m.contains_key(token) && redeemable(m[token], now) {
        Some(m[token].version)
    } else {
        None
    }
}

/// The sweep of the tokens in `done` only.
pub open spec fn swept_within(m: Map<Seq<char>, IssuedToken>, done: Set<Seq<char>>, now: i64) -> Map<Seq<char>, IssuedToken> {
    Map::new(|k: Seq<char>| m.contains_key(k) && (!done.contains(k) || redeemable(m[k], now)), |k: Seq<char>| m[k])
}

/// The table of issued download tokens.
pub struct DownloadTokens {
    tokens: TokenMap,
}

impl View for DownloadTokens {
    type V = Map<Seq<char>, IssuedToken>;

    closed spec fn view(&self) -> Map<Seq<char>, IssuedToken> {
        token_table(self.tokens)
    }
}

impl DownloadTokens {
    pub fn new() -> (r: DownloadTokens)
        ensures
            r@ == no_tokens(),
    {
        DownloadTokens { tokens: tokens_new() }
    }

    /// Issues a fresh random token for `version` at `now`.
    pub fn issue(&mut self, version: &String, now: i64) -> (r: String)
        ensures
            r@.len() == 36,
            final(self)@ == old(self)@.insert(r@, IssuedToken { version: *version, issued_at: now }),
    {
        let token = fresh_key();
        tokens_insert(&mut self.tokens, token.clone(), IssuedToken { version: version.clone(), issued_at: now });
        token
    }

    /// The version that `token` stands for, while it is redeemable; an
    /// expired token is treated as unknown. The entry stays, so that a
    /// download can be resumed within the window.
    pub fn redeem(&self, token: &String, now: i64) -> (r: Option<String>)
        ensures
            r == redeemed(self@, token@, now),
    {
        match tokens_get(&self.tokens, token) {
            None => None,
            Some(t) => {
                let age: i128 = now as i128 - t.issued_at as i128;
                if age < TOKEN_LIFETIME as i128 {
                    Some(t.version)
                } else {
                    None
                }
            },
        }
    }

    /// Deletes the tokens that are no longer redeemable at `now`.
    pub fn sweep(&mut self, now: i64)
        ensures
            final(self)@ == unexpired(old(self)@, now),
    {
        let keys = tokens_keys(&self.tokens);
        let ghost m0 = self@;
        let ghost mut done: Set<Seq<char>> = Set::empty();
        assert(self@ =~= swept_within(m0, done, now));
        let mut i: usize = 0;
        while i < keys.len()
            invariant
                i <= keys@.len(),
                lists_keys_once(keys@, m0.dom()),
                self@ == swept_within(m0, done, now),
                forall|j: int| 0 <= j < i ==> done.contains(#[trigger] keys@[j]@),
                forall|k: Seq<char>| done.contains(k) ==> exists|j: int| 0 <= j < i && #[trigger] keys@[j]@ == k,
            decreases keys@.len() - i,
        {
            let key = &keys[i];
            let ghost kv = key@;
            assert(m0.contains_key(kv));
            assert(!done.contains(kv)) by {
                if done.contains(kv) {
                    let j = choose|j: int| 0 <= j < i && #[trigger] keys@[j]@ == kv;
                    assert(keys@[j]@ != keys@[i as int]@);
                }
            }
            match tokens_get(&self.tokens, key) {
                None => {},
                Some(t) => {
                    let age: i128 = now as i128 - t.issued_at as i128;
                    if age >= TOKEN_LIFETIME as i128 {
                        tokens_remove(&mut self.tokens, key);
                    }
                },
            }
            proof {
                let old_done = done;
                done = done.insert(kv);
                assert(self@ =~= swept_within(m0, done, now));
                assert forall|k: Seq<char>| done.contains(k) implies exists|j: int| 0 <= j < i + 1 && #[trigger] keys@[j]@ == k by {
                    if k != kv {
                        assert(old_done.contains(k));
                        let j = choose|j: int| 0 <= j < i && #[trigger] keys@[j]@ == k;
                        assert(0 <= j < i + 1 && keys@[j]@ == k);
                    } else {
                        assert(keys@[i as int]@ == k);
                    }
                }
            }
            i = i + 1;
        }
        proof {
            assert forall|k: Seq<char>| m0.contains_key(k) implies done.contains(k) by {
                let j = choose|j: int| 0 <= j < keys@.len() && #[trigger] keys@[j]@ == k;
            }
            assert(self@ =~= unexpired(m0, now));
        }
    }
}

} // verus!
