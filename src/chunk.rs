//! Splitting of long chat messages into pieces that fit the chat's size
//! limit, at line breaks where possible. Lengths count characters.
use vstd::prelude::*;
use vstd::string::StrSliceExecFns;
use vstd::string::StringExecFns;

verus! {

/// The limit used when a caller passes `0`: a little under the chat's
/// 4096-character cap, to leave room for markup.
pub const MAX_MESSAGE_LENGTH: usize = 4000;

/// `j` is the position of the first `\n` of `s`.
pub open spec fn is_first_nl(s: Seq<char>, j: int) -> bool {
    &&& 0 <= j < s.len()
    &&& s[j] == '\n'
    &&& forall|k: int| 0 <= k < j ==> s[k] != '\n'
}

/// `x` without one trailing `\r`.
pub open spec fn strip_cr(x: Seq<char>) -> Seq<char> {
    if x.len() > 0 && x.last() == '\r' { x.drop_last() } else { x }
}

/// The lines of `s`: split at `\n`, each dropping a `\r` before its `\n`;
/// a final `\n` ends the last line rather than starting an empty one.
pub open spec fn lines_of(s: Seq<char>) -> Seq<Seq<char>>
    decreases s.len(),
{
    if s.len() == 0 {
        Seq::empty()
    } else if exists|j: int| is_first_nl(s, j) {
        let j = choose|j: int| is_first_nl(s, j);
        if 0 <= j < s.len() {
            seq![strip_cr(s.subrange(0, j))] + lines_of(s.subrange(j + 1, s.len() as int))
        } else {
            Seq::empty()
        }
    } else {
        seq![s]
    }
}

/// A line longer than `max` cut into pieces of `max` characters while more
/// than `max` remain, and the remainder.
pub open spec fn split_long(line: Seq<char>, max: nat) -> (Seq<Seq<char>>, Seq<char>)
    decreases line.len(),
{
    if max > 0 && line.len() > max {
        let (p, r) = split_long(line.subrange(max as int, line.len() as int), max);
        (seq![line.subrange(0, max as int)] + p, r)
    } else {
        (Seq::empty(), line)
    }
}

/// One line added to the finished pieces and the piece being filled. The
/// piece in progress is closed when the line (and a `\n`) would overflow
/// it; a line too long for any piece is cut.
pub open spec fn step(st: (Seq<Seq<char>>, Seq<char>), line: Seq<char>, max: nat) -> (Seq<Seq<char>>, Seq<char>) {
    let flush = st.1.len() > 0 && st.1.len() + line.len() + 1 > max;
    let c1 = if flush { st.0.push(st.1) } else { st.0 };
    let cur1 = if flush { Seq::<char>::empty() } else { st.1 };
    if line.len() > max {
        let c2 = if cur1.len() > 0 { c1.push(cur1) } else { c1 };
        (c2 + split_long(line, max).0, split_long(line, max).1)
    } else {
        (c1, if cur1.len() > 0 { cur1.push('\n') + line } else { line })
    }
}

pub open spec fn fold_lines(st: (Seq<Seq<char>>, Seq<char>), lines: Seq<Seq<char>>, max: nat) -> (Seq<Seq<char>>, Seq<char>)
    decreases lines.len(),
{
    if lines.len() == 0 {
        st
    } else {
        fold_lines(step(st, lines[0], max), lines.drop_first(), max)
    }
}

pub open spec fn effective_max(max_len: usize) -> nat {
    if max_len == 0 { MAX_MESSAGE_LENGTH as nat } else { max_len as nat }
}

/// The pieces of `text` for limit `max_len` (`0` meaning the default).
pub open spec fn chunks_of(text: Seq<char>, max_len: usize) -> Seq<Seq<char>> {
    let max = effective_max(max_len);
    if text.len() <= max {
        seq![text]
    } else {
        let st = fold_lines((Seq::empty(), Seq::empty()), lines_of(text), max);
        if st.1.len() > 0 { st.0.push(st.1) } else { st.0 }
    }
}

pub open spec fn views(v: Seq<String>) -> Seq<Seq<char>> {
    v.map_values(|s: String| s@)
}

/// Relies on std's `str::chars`, collected: the characters of `text`.
#[verifier::external_body]
fn chars_of(text: &str) -> (r: Vec<char>)
    ensures
        r@ == text@,
{
    text.chars().collect()
}

proof fn lemma_views_push(v: Seq<String>, s: String)
    ensures
        views(v.push(s)) == views(v).push(s@),
{
    assert(views(v.push(s)) =~= views(v).push(s@));
}

/// Splits `text` into pieces of at most `max_len` characters (`0` means
/// `MAX_MESSAGE_LENGTH`), breaking at line ends where it can and cutting
/// lines that are longer than a piece.
pub fn chunk_message(text: &str, max_len: usize) -> (r: Vec<String>)
    ensures
        views(r@) == chunks_of(text@, max_len),
{
    let max: usize = if max_len == 0 { MAX_MESSAGE_LENGTH } else { max_len };
    let cs = chars_of(text);
    let n = cs.len();
    if n <= max {
        let whole = text.to_owned();
        let mut one: Vec<String> = Vec::new();
        one.push(whole);
        proof {
            assert(views(one@) =~= seq![text@]);
        }
        return one;
    }
    let ghost s = text@;
    let ghost m = max as nat;
    let mut chunks: Vec<String> = Vec::new();
    let mut cur = String::new();
    let mut cur_len: usize = 0;
    let mut pos: usize = 0;
    proof {
        assert(s.subrange(0, n as int) =~= s);
        assert(views(chunks@) =~= Seq::<Seq<char>>::empty());
    }
    while pos < n
        invariant
            pos <= n,
            n == s.len(),
            cs@ == s,
            s == text@,
            m == max as nat,
            max > 0,
            cur_len == cur@.len(),
            cur_len <= max,
            fold_lines((views(chunks@), cur@), lines_of(s.subrange(pos as int, n as int)), m) == fold_lines(
                (Seq::empty(), Seq::empty()),
                lines_of(s),
                m,
            ),
        decreases n - pos,
    {
        let ghost u = s.subrange(pos as int, n as int);
        let mut j: usize = pos;
        while j < n && cs[j] != '\n'
            invariant
                pos <= j <= n,
                n == s.len(),
                cs@ == s,
                forall|k: int| pos <= k < j ==> s[k] != '\n',
            decreases n - j,
        {
            j = j + 1;
        }
        let end: usize = if j < n && j > pos && cs[j - 1] == '\r' { j - 1 } else { j };
        let next: usize = if j < n { j + 1 } else { n };
        let ghost line = s.subrange(pos as int, end as int);
        proof {
            if j < n {
                let jj = j - pos;
                assert(is_first_nl(u, jj));
                let c = choose|c: int| is_first_nl(u, c);
                assert(c == jj) by {
                    if c < jj {
                        assert(u[c] == s[pos + c]);
                    } else if c > jj {
                        assert(u[jj] == '\n');
                    }
                }
                assert(u.subrange(0, jj) =~= s.subrange(pos as int, j as int));
                assert(u.subrange(jj + 1, u.len() as int) =~= s.subrange(next as int, n as int));
                if j > pos && s[j - 1] == '\r' {
                    assert(s.subrange(pos as int, j as int).drop_last() =~= line);
                } else {
                    assert(s.subrange(pos as int, j as int) =~= line);
                }
                assert(lines_of(u) == seq![line] + lines_of(s.subrange(next as int, n as int)));
            } else {
                assert(!exists|c: int| is_first_nl(u, c)) by {
                    if exists|c: int| is_first_nl(u, c) {
                        let c = choose|c: int| is_first_nl(u, c);
                        assert(u[c] == s[pos + c]);
                    }
                }
                assert(u =~= line);
                assert(s.subrange(next as int, n as int) =~= Seq::<char>::empty());
                assert(lines_of(u) == seq![line]);
            }
            let rest = lines_of(s.subrange(next as int, n as int));
            assert((seq![line] + rest).drop_first() =~= rest);
            assert((seq![line] + rest)[0] == line);
        }
        let ghost st0 = (views(chunks@), cur@);
        let line_len = end - pos;
        if cur_len > 0 && (cur_len as u128) + (line_len as u128) + 1 > max as u128 {
            proof {
                lemma_views_push(chunks@, cur);
            }
            chunks.push(cur);
            cur = String::new();
            cur_len = 0;
        }
        if line_len > max {
            if cur_len > 0 {
                proof {
                    lemma_views_push(chunks@, cur);
                }
                chunks.push(cur);
                cur = String::new();
                cur_len = 0;
            }
            let ghost c2 = views(chunks@);
            let mut a: usize = pos;
            assert(s.subrange(a as int, end as int) =~= line);
            while end - a > max
                invariant
                    pos <= a <= end <= n,
                    n == s.len(),
                    s == text@,
                    max > 0,
                    m == max as nat,
                    views(chunks@) + split_long(s.subrange(a as int, end as int), m).0 == c2 + split_long(line, m).0,
                    split_long(s.subrange(a as int, end as int), m).1 == split_long(line, m).1,
                decreases end - a,
            {
                let ghost rem = s.subrange(a as int, end as int);
                assert(rem.subrange(m as int, rem.len() as int) =~= s.subrange(a + max, end as int));
                assert(rem.subrange(0, m as int) =~= s.subrange(a as int, a + max));
                let piece = text.substring_char(a, a + max).to_owned();
                proof {
                    lemma_views_push(chunks@, piece);
                    let tail = split_long(s.subrange(a + max, end as int), m).0;
                    assert(views(chunks@).push(piece@) + tail =~= views(chunks@) + (seq![piece@] + tail));
                }
                chunks.push(piece);
                a = a + max;
            }
            proof {
                let rem = s.subrange(a as int, end as int);
                assert(split_long(rem, m).0 =~= Seq::<Seq<char>>::empty());
                assert(views(chunks@) + Seq::<Seq<char>>::empty() =~= views(chunks@));
            }
            if a < end {
                cur = text.substring_char(a, end).to_owned();
                cur_len = end - a;
            } else {
                assert(s.subrange(a as int, end as int) =~= Seq::<char>::empty());
            }
        } else {
            if cur_len > 0 {
                proof {
                    reveal_strlit("\n");
                }
                cur.append("\n");
                cur_len = cur_len + 1;
            }
            cur.append(text.substring_char(pos, end));
            cur_len = cur_len + line_len;
            proof {
                if st0.1.len() > 0 && st0.1.len() + line.len() + 1 <= m {
                    assert(cur@ =~= st0.1.push('\n') + line);
                } else {
                    assert(cur@ =~= line);
                }
            }
        }
        proof {
            assert((views(chunks@), cur@) == step(st0, line, m));
        }
        pos = next;
    }
    proof {
        assert(s.subrange(pos as int, n as int) =~= Seq::<char>::empty());
    }
    if cur_len > 0 {
        proof {
            lemma_views_push(chunks@, cur);
        }
        chunks.push(cur);
    }
    chunks
}

} // verus!
