//! The change-aware backup schedule: a snapshot is delivered only when the
//! license table's fingerprint moved since the previous tick, and two ticks
//! never run at once.
use vstd::prelude::*;
use crate::license::License;
use crate::magic::{FNV_OFFSET, fnv_byte, fnv_extend, fnv_from, fnv1a, lemma_fnv_concat, utf8_of};

verus! {

/// The `n` low-order bytes of `x`, least significant first.
pub open spec fn le_bytes(x: u64, n: nat) -> Seq<u8>
    decreases n,
{
    if n == 0 {
        Seq::empty()
    } else {
        seq![(x % 256) as u8] + le_bytes(x / 256, (n - 1) as nat)
    }
}

/// The hash input of one license row: key, a 0xFF separator (no UTF-8 byte),
/// owner, blocked flag, expiry and session cap.
pub open spec fn row_bytes(l: License) -> Seq<u8> {
    utf8_of(l.key@) + seq![0xFFu8] + le_bytes(l.tg_user_id as u64, 8) + seq![if l.is_blocked { 1u8 } else { 0u8 }]
        + le_bytes(l.expires_at as u64, 8) + le_bytes(l.max_sessions as u64, 4)
}

/// The hash input of rows, in the order given.
pub open spec fn rows_bytes(rows: Seq<License>) -> Seq<u8>
    decreases rows.len(),
{
    if rows.len() == 0 {
        Seq::empty()
    } else {
        rows_bytes(rows.drop_last()) + row_bytes(rows.last())
    }
}

/// The fingerprint of the license table, given its rows in key order.
pub open spec fn fingerprint_of(rows: Seq<License>) -> u64 {
    fnv1a(rows_bytes(rows))
}

/// Whether a tick that sees fingerprint `f`, after the stored `last`,
/// delivers a snapshot: the fingerprint moved, and a tick ran before
/// (`0` means none did).
pub open spec fn delivers(last: u64, f: u64) -> bool {
    last != 0 && f != last
}

fn fnv_le(h: u64, x: u64, n: usize) -> (r: u64)
    ensures
        r == fnv_from(h, le_bytes(x, n as nat)),
{
    let mut hash = h;
    let mut v = x;
    let mut i: usize = 0;
    while i < n
        invariant
            i <= n,
            fnv_from(hash, le_bytes(v, (n - i) as nat)) == fnv_from(h, le_bytes(x, n as nat)),
        decreases n - i,
    {
        let ghost rest = le_bytes(v / 256, (n - i - 1) as nat);
        assert((seq![(v % 256) as u8] + rest).drop_first() =~= rest);
        hash = fnv_byte(hash, (v % 256) as u8);
        v = v / 256;
        i = i + 1;
    }
    hash
}

fn row_hash(h: u64, l: &License) -> (r: u64)
    ensures
        r == fnv_from(h, row_bytes(*l)),
{
    let key = l.key.as_str().as_bytes();
    let h1 = fnv_extend(h, key);
    let h2 = fnv_byte(h1, 0xFF);
    let h3 = fnv_le(h2, l.tg_user_id as u64, 8);
    let h4 = fnv_byte(h3, if l.is_blocked { 1 } else { 0 });
    let h5 = fnv_le(h4, l.expires_at as u64, 8);
    let h6 = fnv_le(h5, l.max_sessions as u64, 4);
    proof {
        let a = utf8_of(l.key@);
        let b = seq![0xFFu8];
        let c = le_bytes(l.tg_user_id as u64, 8);
        let d = seq![if l.is_blocked { 1u8 } else { 0u8 }];
        let e = le_bytes(l.expires_at as u64, 8);
        let f = le_bytes(l.max_sessions as u64, 4);
        assert(b.drop_first() =~= Seq::<u8>::empty());
        assert(d.drop_first() =~= Seq::<u8>::empty());
        assert(fnv_from(h2, Seq::<u8>::empty()) == h2);
        assert(fnv_from(h4, Seq::<u8>::empty()) == h4);
        assert(b[0] == 0xFFu8);
        assert(fnv_from(h1, b) == h2);
        assert(fnv_from(h3, d) == h4);
        lemma_fnv_concat(h, a, b);
        assert(fnv_from(h, a + b) == h2);
        lemma_fnv_concat(h, a + b, c);
        assert(fnv_from(h, a + b + c) == h3);
        lemma_fnv_concat(h, a + b + c, d);
        assert(fnv_from(h, a + b + c + d) == h4);
        lemma_fnv_concat(h, a + b + c + d, e);
        assert(fnv_from(h, a + b + c + d + e) == h5);
        lemma_fnv_concat(h, a + b + c + d + e, f);
        assert(fnv_from(h, a + b + c + d + e + f) == h6);
    }
    h6
}

/// The fingerprint of the license table; `rows` come in key order.
pub fn fingerprint(rows: &Vec<License>) -> (r: u64)
    ensures
        r == fingerprint_of(rows@),
{
    let mut h: u64 = FNV_OFFSET;
    let mut i: usize = 0;
    while i < rows.len()
        invariant
            i <= rows@.len(),
            h == fnv_from(FNV_OFFSET, rows_bytes(rows@.subrange(0, i as int))),
        decreases rows@.len() - i,
    {
        let ghost pre = rows@.subrange(0, i as int);
        assert(rows@.subrange(0, i + 1).drop_last() =~= pre);
        proof {
            lemma_fnv_concat(FNV_OFFSET, rows_bytes(pre), row_bytes(rows@[i as int]));
        }
        h = row_hash(h, &rows[i]);
        i = i + 1;
    }
    assert(rows@.subrange(0, i as int) =~= rows@);
    h
}

/// Process-wide backup state: the fingerprint seen by the last tick
/// (`0` before the first) and whether a tick is running.
pub struct BackupScheduler {
    last: u64,
    running: bool,
}

impl View for BackupScheduler {
    type V = (u64, bool);

    closed spec fn view(&self) -> (u64, bool) {
        (self.last, self.running)
    }
}

impl BackupScheduler {
    pub fn new() -> (r: BackupScheduler)
        ensures
            r@ == (0u64, false),
    {
        BackupScheduler { last: 0, running: false }
    }

    /// Starts a tick; `false`, with nothing changed, while one is running.
    pub fn try_begin(&mut self) -> (r: bool)
        ensures
            r == !old(self)@.1,
            final(self)@ == (old(self)@.0, true),
    {
        if self.running {
            false
        } else {
            self.running = true;
            true
        }
    }

    /// Whether a tick that saw fingerprint `f` is to deliver a snapshot.
    pub fn should_deliver(&self, f: u64) -> (r: bool)
        ensures
            r == delivers(self@.0, f),
    {
        self.last != 0 && f != self.last
    }

    /// Ends a tick that saw fingerprint `f`: records it and says whether the
    /// snapshot was to be delivered.
    pub fn finish(&mut self, f: u64) -> (r: bool)
        ensures
            r == delivers(old(self)@.0, f),
            final(self)@ == (f, false),
    {
        let deliver = self.last != 0 && f != self.last;
        self.last = f;
        self.running = false;
        deliver
    }

    /// Ends a tick that failed before a fingerprint was taken.
    pub fn abort(&mut self)
        ensures
            final(self)@ == (old(self)@.0, false),
    {
        self.running = false;
    }
}

/// Two consecutive ticks over the same license rows deliver at most one
/// snapshot, whatever the stored fingerprint was before them.
pub proof fn lemma_backup_idempotent(last: u64, rows: Seq<License>)
    ensures
        !(delivers(last, fingerprint_of(rows)) && delivers(fingerprint_of(rows), fingerprint_of(rows))),
        !delivers(fingerprint_of(rows), fingerprint_of(rows)),
{
}

} // verus!
