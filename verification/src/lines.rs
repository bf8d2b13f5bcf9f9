//! The line assembler.
//!
//! Consumes byte chunks and reassembles the logical lines they contain. A
//! line is terminated by a line feed; a single carriage return immediately
//! before the line feed is stripped. Bytes of an unterminated final line stay
//! buffered; if the input ends there they are deliberately discarded, never
//! yielded as a line.

use vstd::prelude::*;

verus! {

/// The line-feed byte that terminates a line.
pub const LF: u8 = 10;

/// The carriage-return byte tolerated immediately before a line feed.
pub const CR: u8 = 13;

/// A completed line with a single trailing carriage return removed.
pub open spec fn strip_cr(line: Seq<u8>) -> Seq<u8> {
    if line.len() > 0 && line.last() == CR {
        line.drop_last()
    } else {
        line
    }
}

/// The lines completed while consuming `input` with `acc` already buffered.
pub open spec fn asm_lines(acc: Seq<u8>, input: Seq<u8>) -> Seq<Seq<u8>>
    decreases input.len(),
{
    if input.len() == 0 {
        Seq::empty()
    } else if input.first() == LF {
        seq![strip_cr(acc)] + asm_lines(Seq::empty(), input.drop_first())
    } else {
        asm_lines(acc.push(input.first()), input.drop_first())
    }
}

/// The bytes still buffered after consuming `input` with `acc` already
/// buffered: the unterminated tail of the byte sequence.
pub open spec fn asm_rest(acc: Seq<u8>, input: Seq<u8>) -> Seq<u8>
    decreases input.len(),
{
    if input.len() == 0 {
        acc
    } else if input.first() == LF {
        asm_rest(Seq::empty(), input.drop_first())
    } else {
        asm_rest(acc.push(input.first()), input.drop_first())
    }
}

/// Consuming one byte after `s` extends the assembly of `s`: a line feed
/// completes the buffered line, any other byte joins the buffer.
pub proof fn lemma_asm_singleton(acc: Seq<u8>, b: u8)
    ensures
        b == LF ==> asm_lines(acc, seq![b]) == seq![strip_cr(acc)],
        b == LF ==> asm_rest(acc, seq![b]) == Seq::<u8>::empty(),
        b != LF ==> asm_lines(acc, seq![b]) == Seq::<Seq<u8>>::empty(),
        b != LF ==> asm_rest(acc, seq![b]) == acc.push(b),
{
    let s = seq![b];
    assert(s.drop_first() =~= Seq::<u8>::empty());
    assert(asm_lines(Seq::<u8>::empty(), Seq::<u8>::empty()) == Seq::<Seq<u8>>::empty());
    assert(asm_rest(Seq::<u8>::empty(), Seq::<u8>::empty()) == Seq::<u8>::empty());
    assert(asm_lines(acc.push(b), Seq::<u8>::empty()) == Seq::<Seq<u8>>::empty());
    assert(asm_rest(acc.push(b), Seq::<u8>::empty()) == acc.push(b));
    if b == LF {
        assert(asm_lines(acc, s) =~= seq![strip_cr(acc)] + Seq::<Seq<u8>>::empty());
        assert(seq![strip_cr(acc)] + Seq::<Seq<u8>>::empty() =~= seq![strip_cr(acc)]);
    }
}

/// Assembling a concatenation equals assembling the parts in order, the
/// buffered tail of the first part carried into the second.
pub proof fn lemma_asm_append(acc: Seq<u8>, s: Seq<u8>, t: Seq<u8>)
    ensures
        asm_lines(acc, s + t) == asm_lines(acc, s) + asm_lines(asm_rest(acc, s), t),
        asm_rest(acc, s + t) == asm_rest(asm_rest(acc, s), t),
    decreases s.len(),
{
    if s.len() == 0 {
        assert(s + t =~= t);
        assert(asm_lines(acc, s) + asm_lines(asm_rest(acc, s), t) =~= asm_lines(acc, t));
    } else {
        let b = s.first();
        assert((s + t).len() > 0);
        assert((s + t).first() == b);
        assert((s + t).drop_first() =~= s.drop_first() + t);
        if b == LF {
            lemma_asm_append(Seq::empty(), s.drop_first(), t);
            assert(asm_lines(acc, s + t) =~= seq![strip_cr(acc)] + asm_lines(
                Seq::empty(),
                s.drop_first() + t,
            ));
            assert(seq![strip_cr(acc)] + (asm_lines(Seq::empty(), s.drop_first()) + asm_lines(
                asm_rest(Seq::empty(), s.drop_first()),
                t,
            )) =~= (seq![strip_cr(acc)] + asm_lines(Seq::empty(), s.drop_first())) + asm_lines(
                asm_rest(Seq::empty(), s.drop_first()),
                t,
            ));
        } else {
            lemma_asm_append(acc.push(b), s.drop_first(), t);
        }
    }
}

/// The concatenation of a sequence of chunks.
pub open spec fn concat_chunks(chunks: Seq<Seq<u8>>) -> Seq<u8>
    decreases chunks.len(),
{
    if chunks.len() == 0 {
        Seq::empty()
    } else {
        chunks.first() + concat_chunks(chunks.drop_first())
    }
}

/// The lines completed while the chunks are delivered one at a time, the
/// buffered tail carried from each chunk to the next.
pub open spec fn chunked_lines(acc: Seq<u8>, chunks: Seq<Seq<u8>>) -> Seq<Seq<u8>>
    decreases chunks.len(),
{
    if chunks.len() == 0 {
        Seq::empty()
    } else {
        asm_lines(acc, chunks.first()) + chunked_lines(
            asm_rest(acc, chunks.first()),
            chunks.drop_first(),
        )
    }
}

/// The bytes still buffered after the chunks are delivered one at a time.
pub open spec fn chunked_rest(acc: Seq<u8>, chunks: Seq<Seq<u8>>) -> Seq<u8>
    decreases chunks.len(),
{
    if chunks.len() == 0 {
        acc
    } else {
        chunked_rest(asm_rest(acc, chunks.first()), chunks.drop_first())
    }
}

/// Chunk-boundary independence: a byte sequence delivered in arbitrarily
/// small chunks yields exactly the ordered lines that the same bytes yield
/// when delivered as one chunk, and leaves the same bytes buffered.
pub proof fn lemma_chunk_boundary_independence(acc: Seq<u8>, chunks: Seq<Seq<u8>>)
    ensures
        chunked_lines(acc, chunks) == asm_lines(acc, concat_chunks(chunks)),
        chunked_rest(acc, chunks) == asm_rest(acc, concat_chunks(chunks)),
    decreases chunks.len(),
{
    if chunks.len() == 0 {
        assert(concat_chunks(chunks) =~= Seq::<u8>::empty());
        assert(chunked_lines(acc, chunks) =~= asm_lines(acc, concat_chunks(chunks)));
    } else {
        lemma_chunk_boundary_independence(asm_rest(acc, chunks.first()), chunks.drop_first());
        lemma_asm_append(acc, chunks.first(), concat_chunks(chunks.drop_first()));
    }
}

/// Reassembles logical lines out of byte chunks, buffering the bytes of an
/// unterminated line across chunk boundaries.
pub struct LineAssembler {
    pub acc: Vec<u8>,
}

impl LineAssembler {
    /// A fresh assembler with nothing buffered.
    pub fn new() -> (r: Self)
        ensures
            r.acc@ == Seq::<u8>::empty(),
    {
        LineAssembler { acc: Vec::new() }
    }

    /// Feed one chunk; every line completed inside it comes back, in order,
    /// and the bytes of the unterminated tail stay buffered.
    pub fn push_chunk(&mut self, chunk: &Vec<u8>) -> (lines: Vec<Vec<u8>>)
        ensures
            lines.deep_view() == asm_lines(old(self).acc@, chunk@),
            final(self).acc@ == asm_rest(old(self).acc@, chunk@),
    {
        let ghost acc0 = self.acc@;
        let mut lines: Vec<Vec<u8>> = Vec::new();
        let mut i: usize = 0;
        proof {
            assert(chunk@.take(0) =~= Seq::<u8>::empty());
            assert(lines.deep_view() =~= asm_lines(acc0, chunk@.take(0)));
        }
        while i < chunk.len()
            invariant
                i <= chunk.len(),
                lines.deep_view() == asm_lines(acc0, chunk@.take(i as int)),
                self.acc@ == asm_rest(acc0, chunk@.take(i as int)),
            decreases chunk.len() - i,
        {
            let b = chunk[i];
            proof {
                assert(chunk@.take(i + 1) =~= chunk@.take(i as int) + seq![b]);
                lemma_asm_append(acc0, chunk@.take(i as int), seq![b]);
                lemma_asm_singleton(asm_rest(acc0, chunk@.take(i as int)), b);
            }
            if b == LF {
                let mut line: Vec<u8> = Vec::new();
                core::mem::swap(&mut line, &mut self.acc);
                if line.len() > 0 && line[line.len() - 1] == CR {
                    line.pop();
                }
                assert(line@ == strip_cr(asm_rest(acc0, chunk@.take(i as int))));
                lines.push(line);
                proof {
                    assert(line.deep_view() =~= line@);
                    assert(lines.deep_view() =~= asm_lines(acc0, chunk@.take(i + 1)));
                }
            } else {
                self.acc.push(b);
            }
            i = i + 1;
        }
        proof {
            assert(chunk@.take(chunk@.len() as int) =~= chunk@);
        }
        lines
    }
}

} // verus!
