//! Splitting the ingestion byte stream into lines, with a cap on the length
//! of a line: a longer line is dropped whole and the stream goes on.

use vstd::prelude::*;

verus! {

/// The byte that ends a line.
pub const NEWLINE: u8 = 10;

/// The lines of `b` that a newline ends, and the unterminated rest.
pub open spec fn split_lines(b: Seq<u8>) -> (Seq<Seq<u8>>, Seq<u8>)
    decreases b.len(),
{
    if b.len() == 0 {
        (Seq::empty(), Seq::empty())
    } else {
        let (done, rest) = split_lines(b.drop_last());
        if b.last() == NEWLINE {
            (done.push(rest), Seq::empty())
        } else {
            (done, rest.push(b.last()))
        }
    }
}

/// Whether a line is short enough to be kept.
pub open spec fn fits(max_line: nat) -> spec_fn(Seq<u8>) -> bool {
    |l: Seq<u8>| l.len() <= max_line
}

/// The complete lines of `b` of at most `max_line` bytes, in order.
pub open spec fn kept_lines(b: Seq<u8>, max_line: nat) -> Seq<Seq<u8>> {
    split_lines(b).0.filter(fits(max_line))
}

/// The values of a batch of lines.
pub open spec fn lines_view(lines: Seq<Vec<u8>>) -> Seq<Seq<u8>> {
    lines.map_values(|l: Vec<u8>| l@)
}

/// Incremental line splitter for one connection.
pub struct LineSplitter {
    buf: Vec<u8>,
    overflowed: bool,
    max_line: usize,
    seen: Ghost<Seq<u8>>,
}

impl LineSplitter {
    /// Every byte received so far.
    pub closed spec fn seen(&self) -> Seq<u8> {
        self.seen@
    }

    /// The longest line kept, in bytes.
    pub closed spec fn max_line(&self) -> nat {
        self.max_line as nat
    }

    /// The buffer holds the unterminated rest of the stream while it fits.
    pub closed spec fn wf(&self) -> bool {
        let rest = split_lines(self.seen@).1;
        &&& self.overflowed == (rest.len() > self.max_line)
        &&& !self.overflowed ==> self.buf@ == rest
    }

    /// A splitter that keeps lines of at most `max_line` bytes.
    pub fn new(max_line: usize) -> (s: LineSplitter)
        ensures
            s.wf(),
            s.seen() == Seq::<u8>::empty(),
            s.max_line() == max_line,
    {
        LineSplitter { buf: Vec::new(), overflowed: false, max_line, seen: Ghost(Seq::empty()) }
    }

    /// Takes the next bytes of the stream and returns the lines they
    /// complete that fit the cap.
    pub fn push_bytes(&mut self, chunk: &[u8]) -> (lines: Vec<Vec<u8>>)
        requires
            old(self).wf(),
        ensures
            final(self).wf(),
            final(self).max_line() == old(self).max_line(),
            final(self).seen() == old(self).seen() + chunk@,
            kept_lines(final(self).seen(), final(self).max_line()) == kept_lines(
                old(self).seen(),
                old(self).max_line(),
            ) + lines_view(lines@),
    {
        let mut out: Vec<Vec<u8>> = Vec::new();
        let mut i: usize = 0;
        while i < chunk.len()
            invariant
                self.wf(),
                self.max_line == old(self).max_line,
                i <= chunk@.len(),
                self.seen@ == old(self).seen@ + chunk@.take(i as int),
                kept_lines(self.seen@, self.max_line as nat) == kept_lines(
                    old(self).seen@,
                    self.max_line as nat,
                ) + lines_view(out@),
            decreases chunk@.len() - i,
        {
            let b = chunk[i];
            let ghost before = self.seen@;
            let ghost after = before.push(b);
            proof {
                assert(after.drop_last() == before);
                reveal(Seq::filter);
                let done = split_lines(before).0;
                let rest = split_lines(before).1;
                assert(done.push(rest).drop_last() == done);
                assert(old(self).seen@ + chunk@.take(i + 1) == after);
            }
            if b == NEWLINE {
                if !self.overflowed {
                    let mut line: Vec<u8> = Vec::new();
                    std::mem::swap(&mut line, &mut self.buf);
                    proof {
                        assert(lines_view(out@.push(line)) == lines_view(out@).push(line@));
                    }
                    out.push(line);
                } else {
                    self.buf = Vec::new();
                }
                self.overflowed = false;
            } else if self.overflowed {
            } else if self.buf.len() < self.max_line {
                self.buf.push(b);
            } else {
                self.buf = Vec::new();
                self.overflowed = true;
            }
            self.seen = Ghost(after);
            i += 1;
        }
        proof {
            assert(chunk@.take(chunk@.len() as int) == chunk@);
        }
        out
    }

    /// Ends the stream: the unterminated last line, when it is not empty and
    /// fits the cap.
    pub fn finish(self) -> (r: Option<Vec<u8>>)
        requires
            self.wf(),
        ensures
            r is Some <==> 0 < split_lines(self.seen()).1.len() <= self.max_line(),
            r matches Some(l) ==> l@ == split_lines(self.seen()).1,
    {
        if !self.overflowed && self.buf.len() > 0 {
            Some(self.buf)
        } else {
            None
        }
    }
}

proof fn lemma_split_without_newline(x: Seq<u8>)
    requires
        !x.contains(NEWLINE),
    ensures
        split_lines(x).0.len() == 0,
        split_lines(x).1 == x,
    decreases x.len(),
{
    if x.len() > 0 {
        assert(!x.drop_last().contains(NEWLINE)) by {
            if x.drop_last().contains(NEWLINE) {
                let k = choose|k: int| 0 <= k < x.drop_last().len() && x.drop_last()[k] == NEWLINE;
                assert(x[k] == NEWLINE);
            }
        }
        lemma_split_without_newline(x.drop_last());
        assert(x.last() != NEWLINE) by {
            assert(x[x.len() - 1] == x.last());
        }
        assert(x.drop_last().push(x.last()) == x);
    }
}

proof fn lemma_split_concat(a: Seq<u8>, b: Seq<u8>)
    requires
        split_lines(a).1.len() == 0,
    ensures
        split_lines(a + b).0 == split_lines(a).0 + split_lines(b).0,
        split_lines(a + b).1 == split_lines(b).1,
    decreases b.len(),
{
    if b.len() == 0 {
        assert(a + b == a);
        assert(split_lines(a).1 == Seq::<u8>::empty());
        assert(split_lines(a).0 + Seq::<Seq<u8>>::empty() == split_lines(a).0);
    } else {
        let b0 = b.drop_last();
        lemma_split_concat(a, b0);
        assert((a + b).drop_last() == a + b0);
        assert((a + b).last() == b.last());
        let x = split_lines(a).0;
        let y = split_lines(b0).0;
        let z = split_lines(b0).1;
        assert((x + y).push(z) == x + y.push(z));
    }
}

/// A line longer than the cap is dropped whole, and the lines after it are
/// kept as if it had not been sent: the connection is not disturbed.
pub proof fn lemma_long_line_dropped(
    before: Seq<u8>,
    long: Seq<u8>,
    after: Seq<u8>,
    max_line: nat,
)
    requires
        split_lines(before).1.len() == 0,
        !long.contains(NEWLINE),
        long.len() > max_line,
    ensures
        kept_lines(before + long.push(NEWLINE) + after, max_line) == kept_lines(before, max_line)
            + kept_lines(after, max_line),
{
    let line = long.push(NEWLINE);
    lemma_split_without_newline(long);
    assert(line.drop_last() == long);
    assert(split_lines(line).0 == seq![long]) by {
        assert(Seq::<Seq<u8>>::empty().push(long) == seq![long]);
    }
    assert(split_lines(line).1.len() == 0);
    lemma_split_concat(before, line);
    lemma_split_concat(before + line, after);
    assert(seq![long].filter(fits(max_line)) == Seq::<Seq<u8>>::empty()) by {
        reveal_with_fuel(Seq::filter, 2);
        assert(seq![long].drop_last() == Seq::<Seq<u8>>::empty());
        assert(seq![long].last() == long);
        assert(!(fits(max_line))(long));
    }
    Seq::filter_distributes_over_add(split_lines(before).0, seq![long], fits(max_line));
    Seq::filter_distributes_over_add(
        split_lines(before).0 + seq![long],
        split_lines(after).0,
        fits(max_line),
    );
    assert(split_lines(before).0.filter(fits(max_line)) + Seq::<Seq<u8>>::empty() == split_lines(
        before,
    ).0.filter(fits(max_line)));
}

} // verus!
