//! Newline framing of a serial byte stream.
//!
//! Bytes arrive in arbitrary chunks; every `\n` completes a line, whose
//! trailing carriage returns and whitespace are stripped.  Framing is a
//! fold over single bytes, so the lines that come out depend only on
//! the concatenated stream, never on how it was cut into reads.

use vstd::prelude::*;

verus! {

/// Trailing whitespace byte: space, tab or carriage return.
pub open spec fn spec_is_trail_ws(c: u8) -> bool {
    c == 32 || c == 9 || c == 13
}

/// Strip trailing whitespace and carriage returns.
pub open spec fn spec_trim_trail(s: Seq<u8>) -> Seq<u8>
    decreases s.len(),
{
    if s.len() > 0 && spec_is_trail_ws(s.last()) {
        spec_trim_trail(s.drop_last())
    } else {
        s
    }
}

/// Feed a chunk into the framer: the lines it completes (trimmed) and
/// the bytes still pending.
pub open spec fn spec_feed(pending: Seq<u8>, bytes: Seq<u8>) -> (Seq<Seq<u8>>, Seq<u8>)
    decreases bytes.len(),
{
    if bytes.len() == 0 {
        (Seq::empty(), pending)
    } else if bytes[0] == 10 {
        let rest = spec_feed(Seq::empty(), bytes.skip(1));
        (seq![spec_trim_trail(pending)] + rest.0, rest.1)
    } else {
        spec_feed(pending.push(bytes[0]), bytes.skip(1))
    }
}

/// Unfolding a feed one byte at the end.
proof fn lemma_feed_push(pending: Seq<u8>, bytes: Seq<u8>, b: u8)
    ensures
        spec_feed(pending, bytes.push(b)) == (if b == 10 {
            (
                spec_feed(pending, bytes).0 + seq![
                    spec_trim_trail(spec_feed(pending, bytes).1),
                ],
                Seq::<u8>::empty(),
            )
        } else {
            (spec_feed(pending, bytes).0, spec_feed(pending, bytes).1.push(b))
        }),
    decreases bytes.len(),
{
    let p = bytes.push(b);
    if bytes.len() == 0 {
        assert(p.len() == 1);
        assert(p[0] == b);
        assert(p.skip(1) =~= Seq::<u8>::empty());
        assert(spec_feed(pending, bytes) == (Seq::<Seq<u8>>::empty(), pending));
        if b == 10 {
            assert(spec_feed(Seq::<u8>::empty(), Seq::<u8>::empty()) == (
                Seq::<Seq<u8>>::empty(),
                Seq::<u8>::empty(),
            ));
            assert(spec_feed(pending, p).0 =~= seq![spec_trim_trail(pending)]);
            assert(spec_feed(pending, p).1 =~= Seq::<u8>::empty());
            assert(spec_feed(pending, bytes).0 + seq![
                spec_trim_trail(spec_feed(pending, bytes).1),
            ] =~= seq![spec_trim_trail(pending)]);
        } else {
            assert(spec_feed(pending.push(b), Seq::<u8>::empty()) == (
                Seq::<Seq<u8>>::empty(),
                pending.push(b),
            ));
            assert(spec_feed(pending, p) == spec_feed(pending.push(p[0]), p.skip(1)));
        }
    } else {
        assert(p[0] == bytes[0]);
        assert(p.skip(1) =~= bytes.skip(1).push(b));
        if bytes[0] == 10 {
            lemma_feed_push(Seq::empty(), bytes.skip(1), b);
            assert(spec_feed(pending, p) == (
                seq![spec_trim_trail(pending)] + spec_feed(Seq::empty(), p.skip(1)).0,
                spec_feed(Seq::empty(), p.skip(1)).1,
            ));
            assert(spec_feed(pending, bytes) == (
                seq![spec_trim_trail(pending)] + spec_feed(Seq::empty(), bytes.skip(1)).0,
                spec_feed(Seq::empty(), bytes.skip(1)).1,
            ));
            if b == 10 {
                assert(spec_feed(pending, p).0 =~= spec_feed(pending, bytes).0 + seq![
                    spec_trim_trail(spec_feed(pending, bytes).1),
                ]);
            } else {
                assert(spec_feed(pending, p).0 =~= spec_feed(pending, bytes).0);
            }
        } else {
            lemma_feed_push(pending.push(bytes[0]), bytes.skip(1), b);
            assert(spec_feed(pending, p) == spec_feed(pending.push(bytes[0]), p.skip(1)));
            assert(spec_feed(pending, bytes) == spec_feed(pending.push(bytes[0]), bytes.skip(1)));
            if b == 10 {
                assert(spec_feed(pending, p).0 =~= spec_feed(pending, bytes).0 + seq![
                    spec_trim_trail(spec_feed(pending, bytes).1),
                ]);
            }
        }
    }
}

/// Feeding two chunks in turn frames the same lines as feeding their
/// concatenation: framing is invariant under how the stream is cut.
pub proof fn lemma_feed_chunks(pending: Seq<u8>, a: Seq<u8>, b: Seq<u8>)
    ensures
        spec_feed(pending, a + b).0 =~= spec_feed(pending, a).0 + spec_feed(
            spec_feed(pending, a).1,
            b,
        ).0,
        spec_feed(pending, a + b).1 == spec_feed(spec_feed(pending, a).1, b).1,
    decreases a.len(),
{
    if a.len() == 0 {
        assert(a + b =~= b);
        assert(spec_feed(pending, a).0 =~= Seq::<Seq<u8>>::empty());
        assert(spec_feed(pending, a).1 == pending);
        assert(spec_feed(pending, a).0 + spec_feed(pending, b).0 =~= spec_feed(pending, b).0);
    } else {
        assert((a + b)[0] == a[0]);
        assert((a + b).skip(1) =~= a.skip(1) + b);
        if a[0] == 10 {
            lemma_feed_chunks(Seq::empty(), a.skip(1), b);
            assert(spec_feed(pending, a + b).0 =~= spec_feed(pending, a).0 + spec_feed(
                spec_feed(pending, a).1,
                b,
            ).0);
        } else {
            lemma_feed_chunks(pending.push(a[0]), a.skip(1), b);
        }
    }
}

/// The views of a vector of byte lines.
pub open spec fn lines_view(v: Seq<Vec<u8>>) -> Seq<Seq<u8>> {
    v.map_values(|x: Vec<u8>| x@)
}

/// The framer: the bytes of the line still being assembled.
#[derive(Debug)]
pub struct LineFramer {
    pub pending: Vec<u8>,
}

impl LineFramer {
    /// A framer with nothing pending.
    pub fn new() -> (r: Self)
        ensures
            r.pending@ == Seq::<u8>::empty(),
    {
        LineFramer { pending: Vec::new() }
    }

    /// Feed a chunk of bytes; every `\n` completes a line, returned
    /// trimmed of trailing whitespace, and the rest stays pending.
    pub fn push_bytes(&mut self, bytes: &[u8]) -> (r: Vec<Vec<u8>>)
        ensures
            lines_view(r@) == spec_feed(old(self).pending@, bytes@).0,
            final(self).pending@ == spec_feed(old(self).pending@, bytes@).1,
    {
        let mut out: Vec<Vec<u8>> = Vec::new();
        let mut i: usize = 0;
        proof {
            assert(bytes@.take(0) =~= Seq::<u8>::empty());
            assert(lines_view(out@) =~= spec_feed(old(self).pending@, bytes@.take(0)).0);
        }
        while i < bytes.len()
            invariant
                0 <= i <= bytes@.len(),
                lines_view(out@) == spec_feed(old(self).pending@, bytes@.take(i as int)).0,
                self.pending@ == spec_feed(old(self).pending@, bytes@.take(i as int)).1,
            decreases bytes@.len() - i,
        {
            let b = bytes[i];
            proof {
                assert(bytes@.take(i + 1) =~= bytes@.take(i as int).push(bytes@[i as int]));
                lemma_feed_push(old(self).pending@, bytes@.take(i as int), bytes@[i as int]);
            }
            if b == 10 {
                let line = self.take_trimmed();
                out.push(line);
                proof {
                    assert(lines_view(out@) =~= spec_feed(
                        old(self).pending@,
                        bytes@.take(i + 1),
                    ).0);
                }
            } else {
                self.pending.push(b);
            }
            i = i + 1;
        }
        proof {
            assert(bytes@.take(bytes@.len() as int) =~= bytes@);
        }
        out
    }

    /// Remove and return the pending line, trimmed of trailing
    /// whitespace; the framer is left empty.
    fn take_trimmed(&mut self) -> (r: Vec<u8>)
        ensures
            r@ == spec_trim_trail(old(self).pending@),
            final(self).pending@ == Seq::<u8>::empty(),
    {
        let mut line: Vec<u8> = Vec::new();
        core::mem::swap(&mut line, &mut self.pending);
        loop
            invariant
                spec_trim_trail(line@) == spec_trim_trail(old(self).pending@),
                self.pending@ == Seq::<u8>::empty(),
            ensures
                line@ == spec_trim_trail(old(self).pending@),
            decreases line@.len(),
        {
            let n = line.len();
            if n == 0 {
                break;
            }
            let last = line[n - 1];
            if last == 32 || last == 9 || last == 13 {
                proof {
                    assert(line@.drop_last() =~= line@.take(line@.len() - 1));
                }
                line.pop();
            } else {
                break;
            }
        }
        line
    }
}

impl Default for LineFramer {
    fn default() -> (r: Self)
        ensures
            r.pending@ == Seq::<u8>::empty(),
    {
        LineFramer::new()
    }
}

} // verus!
