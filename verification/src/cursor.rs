//! The cursor over one chunk of transport-provided bytes.
//!
//! A cursor never revisits a consumed byte and never copies the
//! unconsumed ones; when the chunk runs out, the caller suspends the
//! parse and resumes it — from the saved parser state, not the cursor,
//! which lives only for the one exchange — once more bytes arrive.
use vstd::prelude::*;

verus! {

/// A position inside one chunk.
pub struct Cursor<'a> {
    chunk: &'a [u8],
    pos: usize,
}

impl<'a> Cursor<'a> {
    /// The bytes not yet consumed.
    pub closed spec fn remaining_view(&self) -> Seq<u8> {
        self.chunk@.subrange(self.pos as int, self.chunk@.len() as int)
    }

    /// The bytes consumed so far.
    pub closed spec fn taken_view(&self) -> Seq<u8> {
        self.chunk@.subrange(0, self.pos as int)
    }

    /// A cursor is always inside or just past its chunk.
    pub closed spec fn wf(&self) -> bool {
        self.pos <= self.chunk@.len()
    }

    /// A fresh cursor at the start of a chunk.
    pub fn new(chunk: &'a [u8]) -> (r: Cursor<'a>)
        ensures
            r.wf(),
            r.remaining_view() == chunk@,
            r.taken_view() == Seq::<u8>::empty(),
    {
        proof {
            assert(chunk@.subrange(0, chunk@.len() as int) =~= chunk@);
            assert(chunk@.subrange(0, 0) =~= Seq::<u8>::empty());
        }
        Cursor { chunk, pos: 0 }
    }

    /// How many bytes of this chunk are still unconsumed.
    pub fn remaining_in_chunk(&self) -> (r: usize)
        requires
            self.wf(),
        ensures
            r == self.remaining_view().len(),
    {
        self.chunk.len() - self.pos
    }

    /// Consume the next byte. `None` means the chunk is exhausted and
    /// the parse must suspend until the driver supplies more bytes.
    pub fn next_byte(&mut self) -> (r: Option<u8>)
        requires
            old(self).wf(),
        ensures
            final(self).wf(),
            ({
                let pre = *old(self);
                let post = *final(self);
                match r {
                    Some(b) => pre.remaining_view().len() > 0 && b == pre.remaining_view()[0]
                        && post.remaining_view() == pre.remaining_view().subrange(
                        1,
                        pre.remaining_view().len() as int,
                    ) && post.taken_view() == pre.taken_view().push(b),
                    None => pre.remaining_view().len() == 0 && post == pre,
                }
            }),
    {
        if self.pos < self.chunk.len() {
            let b = self.chunk[self.pos];
            self.pos = self.pos + 1;
            proof {
                assert(final(self).remaining_view() =~= old(self).remaining_view().subrange(
                    1,
                    old(self).remaining_view().len() as int,
                ));
                assert(final(self).taken_view() =~= old(self).taken_view().push(b));
                assert(old(self).remaining_view()[0] == b);
            }
            Some(b)
        } else {
            None
        }
    }
}

} // verus!
