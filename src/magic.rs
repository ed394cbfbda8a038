//! The heartbeat liveness token: FNV-1a (64-bit) over the session id
//! followed by the server secret.
use vstd::prelude::*;

verus! {

/// FNV-1a 64-bit offset basis.
pub const FNV_OFFSET: u64 = 0xcbf29ce484222325;

/// FNV-1a 64-bit prime.
pub const FNV_PRIME: u64 = 0x100000001b3;

/// One FNV-1a round: xor the byte in, then multiply modulo 2^64.
pub open spec fn fnv_round(h: u64, b: u8) -> u64 {
    (((h ^ (b as u64)) as int * FNV_PRIME as int) % 0x1_0000_0000_0000_0000int) as u64
}

/// FNV-1a state after absorbing `bytes`, starting from state `h`.
pub open spec fn fnv_from(h: u64, bytes: Seq<u8>) -> u64
    decreases bytes.len(),
{
    if bytes.len() == 0 {
        h
    } else {
        fnv_from(fnv_round(h, bytes[0]), bytes.drop_first())
    }
}

/// FNV-1a 64-bit hash of `bytes`.
pub open spec fn fnv1a(bytes: Seq<u8>) -> u64 {
    fnv_from(FNV_OFFSET, bytes)
}

/// The UTF-8 bytes of a string.
pub open spec fn utf8_of(s: Seq<char>) -> Seq<u8> {
    vstd::utf8::encode_utf8(s)
}

/// The liveness token handed back for a session id under a server secret.
pub open spec fn magic_of(session_id: Seq<char>, secret: Seq<char>) -> i64 {
    fnv1a(utf8_of(session_id) + utf8_of(secret)) as i64
}

/// Absorbing `a + b` is absorbing `a`, then `b`.
pub proof fn lemma_fnv_concat(h: u64, a: Seq<u8>, b: Seq<u8>)
    ensures
        fnv_from(h, a + b) == fnv_from(fnv_from(h, a), b),
    decreases a.len(),
{
    if a.len() == 0 {
        assert(a + b =~= b);
    } else {
        assert((a + b).drop_first() =~= a.drop_first() + b);
        lemma_fnv_concat(fnv_round(h, a[0]), a.drop_first(), b);
    }
}

/// One FNV-1a round.
pub fn fnv_byte(h: u64, b: u8) -> (r: u64)
    ensures
        r == fnv_round(h, b),
{
    (h ^ (b as u64)).wrapping_mul(FNV_PRIME)
}

/// Absorbs `bytes` into the FNV-1a state `h`.
pub fn fnv_extend(h: u64, bytes: &[u8]) -> (r: u64)
    ensures
        r == fnv_from(h, bytes@),
{
    let mut hash: u64 = h;
    let mut i: usize = 0;
    assert(bytes@.subrange(0, bytes@.len() as int) =~= bytes@);
    while i < bytes.len()
        invariant
            i <= bytes@.len(),
            fnv_from(hash, bytes@.subrange(i as int, bytes@.len() as int)) == fnv_from(h, bytes@),
        decreases bytes@.len() - i,
    {
        let ghost rest = bytes@.subrange(i as int, bytes@.len() as int);
        assert(rest.drop_first() =~= bytes@.subrange(i + 1, bytes@.len() as int));
        hash = fnv_byte(hash, bytes[i]);
        i = i + 1;
    }
    assert(bytes@.subrange(i as int, bytes@.len() as int) =~= Seq::<u8>::empty());
    hash
}

/// The liveness token for `session_id` under `secret`: FNV-1a over the
/// session id's bytes followed by the secret's bytes, reinterpreted as `i64`.
pub fn generate_magic(session_id: &str, secret: &str) -> (r: i64)
    ensures
        r == magic_of(session_id@, secret@),
{
    let a = session_id.as_bytes();
    let b = secret.as_bytes();
    let h1 = fnv_extend(FNV_OFFSET, a);
    let h2 = fnv_extend(h1, b);
    proof {
        lemma_fnv_concat(FNV_OFFSET, a@, b@);
    }
    h2 as i64
}

} // verus!
