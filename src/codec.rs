//! Decoding of the telemetry blob a client may attach to a heartbeat:
//! standard base64 text holding a gzip stream.
use vstd::prelude::*;
use std::io::Read;
use crate::error::Error;
use crate::magic::utf8_of;

verus! {

/// The value of a base64 digit of the standard alphabet.
pub open spec fn sextet(c: u8) -> Option<u8> {
    if 65 <= c <= 90 {
        Some((c - 65) as u8)
    } else if 97 <= c <= 122 {
        Some((c - 71) as u8)
    } else if 48 <= c <= 57 {
        Some((c + 4) as u8)
    } else if c == 43 {
        Some(62u8)
    } else if c == 47 {
        Some(63u8)
    } else {
        None
    }
}

/// `s` without its trailing `=` characters.
pub open spec fn trim_pad(s: Seq<u8>) -> Seq<u8>
    decreases s.len(),
{
    if s.len() > 0 && s.last() == 61u8 {
        trim_pad(s.drop_last())
    } else {
        s
    }
}

pub open spec fn all_digits(s: Seq<u8>) -> bool {
    forall|i: int| 0 <= i < s.len() ==> (#[trigger] sextet(s[i])) is Some
}

pub open spec fn first_byte(a: u8, b: u8) -> u8 {
    ((a * 4 + b / 16) % 256) as u8
}

pub open spec fn second_byte(b: u8, c: u8) -> u8 {
    (((b % 16) * 16 + c / 4) % 256) as u8
}

pub open spec fn third_byte(c: u8, d: u8) -> u8 {
    (((c % 4) * 64 + d) % 256) as u8
}

/// Packs 6-bit values into bytes: four values give three bytes; a final
/// group of three gives two, of two gives one, of one gives none (its bits
/// are dropped).
pub open spec fn pack(v: Seq<u8>) -> Seq<u8>
    decreases v.len(),
{
    if v.len() >= 4 {
        seq![first_byte(v[0], v[1]), second_byte(v[1], v[2]), third_byte(v[2], v[3])] + pack(
            v.subrange(4, v.len() as int),
        )
    } else if v.len() == 3 {
        seq![first_byte(v[0], v[1]), second_byte(v[1], v[2])]
    } else if v.len() == 2 {
        seq![first_byte(v[0], v[1])]
    } else {
        Seq::empty()
    }
}

/// Base64 text decoded: trailing `=` are dropped; any other character
/// outside the standard alphabet makes the text invalid.
pub open spec fn base64_spec(text: Seq<u8>) -> Option<Seq<u8>> {
    let t = trim_pad(text);
    if all_digits(t) {
        Some(pack(t.map_values(|c: u8| sextet(c).unwrap())))
    } else {
        None
    }
}

/// What decompressing a gzip stream gives: `None` where the stream is not
/// valid gzip.
pub uninterp spec fn gunzip_of(b: Seq<u8>) -> Option<Seq<u8>>;

/// Relies on flate2's `read::GzDecoder` read to its end: the decompressed
/// bytes, a function of the input alone, or `None` on a malformed stream.
#[verifier::external_body]
fn gunzip(b: &[u8]) -> (r: Option<Vec<u8>>)
    ensures
        r matches Some(v) ==> gunzip_of(b@) == Some(v@),
        r is None ==> gunzip_of(b@) is None,
{
    let mut decoder = flate2::read::GzDecoder::new(b);
    let mut out: Vec<u8> = Vec::new();
    match decoder.read_to_end(&mut out) {
        Ok(_) => Some(out),
        Err(_) => None,
    }
}

fn digit_value(c: u8) -> (r: Option<u8>)
    ensures
        r == sextet(c),
{
    if 65 <= c && c <= 90 {
        Some(c - 65)
    } else if 97 <= c && c <= 122 {
        Some(c - 71)
    } else if 48 <= c && c <= 57 {
        Some(c + 4)
    } else if c == 43 {
        Some(62)
    } else if c == 47 {
        Some(63)
    } else {
        None
    }
}

proof fn lemma_trim_prefix(s: Seq<u8>, j: int)
    requires
        0 <= j <= s.len(),
        forall|k: int| j <= k < s.len() ==> s[k] == 61u8,
    ensures
        trim_pad(s.subrange(0, j)) == trim_pad(s),
    decreases s.len() - j,
{
    if j < s.len() {
        assert(s.drop_last() =~= s.subrange(0, s.len() - 1));
        lemma_trim_prefix(s.drop_last(), j);
        assert(s.drop_last().subrange(0, j) =~= s.subrange(0, j));
    } else {
        assert(s.subrange(0, j) =~= s);
    }
}

/// Decodes standard base64 text. Trailing `=` are ignored and a final
/// incomplete group yields the whole bytes it holds.
pub fn base64_decode(input: &str) -> (r: Result<Vec<u8>, ()>)
    ensures
        r matches Ok(v) ==> base64_spec(utf8_of(input@)) == Some(v@),
        r is Err ==> base64_spec(utf8_of(input@)) is None,
{
    let bytes = input.as_bytes();
    let ghost s = bytes@;
    let mut end: usize = bytes.len();
    while end > 0 && bytes[end - 1] == 61
        invariant
            end <= s.len(),
            bytes@ == s,
            s == utf8_of(input@),
            forall|k: int| end <= k < s.len() ==> s[k] == 61u8,
        decreases end,
    {
        end = end - 1;
    }
    proof {
        lemma_trim_prefix(s, end as int);
        let t = s.subrange(0, end as int);
        if t.len() > 0 {
            assert(t.last() != 61u8);
        }
        assert(trim_pad(t) == t);
    }
    let ghost t = s.subrange(0, end as int);
    let mut vals: Vec<u8> = Vec::new();
    let mut i: usize = 0;
    while i < end
        invariant
            i <= end <= s.len(),
            bytes@ == s,
            s == utf8_of(input@),
            t == s.subrange(0, end as int),
            trim_pad(s) == t,
            vals@.len() == i,
            forall|k: int| 0 <= k < i ==> (#[trigger] sextet(t[k])) is Some && vals@[k] == sextet(t[k]).unwrap(),
        decreases end - i,
    {
        match digit_value(bytes[i]) {
            None => {
                assert(sextet(t[i as int]) is None);
                assert(!all_digits(t));
                return Err(());
            },
            Some(d) => {
                vals.push(d);
            },
        }
        i = i + 1;
    }
    let ghost v = vals@;
    assert(v =~= t.map_values(|c: u8| sextet(c).unwrap()));
    let out = pack_values(&vals);
    Ok(out)
}

/// Packs 6-bit values into bytes as `pack` states.
fn pack_values(vals: &Vec<u8>) -> (r: Vec<u8>)
    ensures
        r@ == pack(vals@),
{
    let n = vals.len();
    let mut out: Vec<u8> = Vec::new();
    let mut i: usize = 0;
    assert(vals@.subrange(0, n as int) =~= vals@);
    assert(out@ + pack(vals@) =~= pack(vals@));
    while n - i >= 4
        invariant
            i <= n,
            n == vals@.len(),
            out@ + pack(vals@.subrange(i as int, n as int)) == pack(vals@),
        decreases n - i,
    {
        let ghost rest = vals@.subrange(i as int, n as int);
        assert(rest.subrange(4, rest.len() as int) =~= vals@.subrange(i + 4, n as int));
        let a = vals[i] as u32;
        let b = vals[i + 1] as u32;
        let c = vals[i + 2] as u32;
        let d = vals[i + 3] as u32;
        let ghost before = out@;
        out.push(((a * 4 + b / 16) % 256) as u8);
        out.push((((b % 16) * 16 + c / 4) % 256) as u8);
        out.push((((c % 4) * 64 + d) % 256) as u8);
        assert(out@ =~= before + seq![first_byte(rest[0], rest[1]), second_byte(rest[1], rest[2]), third_byte(rest[2], rest[3])]);
        i = i + 4;
    }
    let ghost rest = vals@.subrange(i as int, n as int);
    let ghost before = out@;
    let left = n - i;
    if left >= 2 {
        let a = vals[i] as u32;
        let b = vals[i + 1] as u32;
        out.push(((a * 4 + b / 16) % 256) as u8);
        if left == 3 {
            let c = vals[i + 2] as u32;
            out.push((((b % 16) * 16 + c / 4) % 256) as u8);
            assert(out@ =~= before + pack(rest));
        } else {
            assert(out@ =~= before + pack(rest));
        }
    } else {
        assert(out@ =~= before + pack(rest));
    }
    out
}

/// A gzip stream decompressed; a malformed stream is a `Decode` error.
pub fn decompress(b: &[u8]) -> (r: Result<Vec<u8>, Error>)
    ensures
        r matches Ok(v) ==> gunzip_of(b@) == Some(v@),
        r is Err ==> gunzip_of(b@) is None,
        r matches Err(e) ==> e is Decode,
{
    match gunzip(b) {
        None => Err(Error::Decode),
        Some(v) => Ok(v),
    }
}

/// The telemetry blob decoded: base64 text, then a gzip stream. Either step
/// failing is a `Decode` error.
pub fn decode_telemetry(blob: &str) -> (r: Result<Vec<u8>, Error>)
    ensures
        r matches Ok(v) ==> (base64_spec(utf8_of(blob@)) matches Some(z) && gunzip_of(z) == Some(v@)),
        r is Err ==> (base64_spec(utf8_of(blob@)) matches Some(z) ==> gunzip_of(z) is None),
        r matches Err(e) ==> e is Decode,
{
    match base64_decode(blob) {
        Err(_) => Err(Error::Decode),
        Ok(z) => decompress(z.as_slice()),
    }
}

} // verus!
