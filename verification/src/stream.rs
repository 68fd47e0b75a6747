//! The body of a download as it arrives: chunks of bytes go in, and the
//! same bytes come out once, in order, in pieces of the size asked for.

use vstd::prelude::*;

verus! {

/// The bytes of a body that have arrived and have not been handed on yet.
pub struct ChunkBuffer {
    chunk: Vec<u8>,
    taken: usize,
}

impl View for ChunkBuffer {
    type V = Seq<u8>;

    /// The bytes that wait to be handed on, in order.
    closed spec fn view(&self) -> Seq<u8> {
        self.chunk@.skip(self.taken as int)
    }
}

impl ChunkBuffer {
    #[verifier::type_invariant]
    spec fn well_formed(self) -> bool {
        self.taken <= self.chunk@.len()
    }

    /// A buffer in which nothing waits.
    pub fn new() -> (buffer: ChunkBuffer)
        ensures
            buffer@ == Seq::<u8>::empty(),
    {
        let buffer = ChunkBuffer { chunk: Vec::new(), taken: 0 };
        assert(buffer@ =~= Seq::<u8>::empty());
        buffer
    }

    /// The number of bytes that wait.
    pub fn waiting(&self) -> (count: usize)
        ensures
            count == self@.len(),
    {
        proof {
            use_type_invariant(self);
        }
        self.chunk.len() - self.taken
    }

    /// Tells whether nothing waits, so that the next chunk is needed.
    pub fn is_drained(&self) -> (drained: bool)
        ensures
            drained == (self@.len() == 0),
    {
        self.waiting() == 0
    }

    /// Takes in the next chunk of the body: its bytes wait behind those
    /// that wait already.
    pub fn refill(&mut self, chunk: Vec<u8>)
        ensures
            final(self)@ == old(self)@ + chunk@,
    {
        proof {
            use_type_invariant(&*self);
        }
        let mut joined: Vec<u8> = Vec::new();
        let mut i: usize = self.taken;
        while i < self.chunk.len()
            invariant
                self.taken <= i <= self.chunk@.len(),
                joined@ == self.chunk@.subrange(self.taken as int, i as int),
            decreases self.chunk.len() - i,
        {
            joined.push(self.chunk[i]);
            assert(joined@ =~= self.chunk@.subrange(self.taken as int, i + 1));
            i += 1;
        }
        let ghost added = chunk@;
        let mut chunk = chunk;
        joined.append(&mut chunk);
        assert(joined@ =~= old(self)@ + added);
        self.taken = 0;
        self.chunk = joined;
        assert(self@ =~= joined@);
    }

    /// Hands on the bytes that wait first: as many as asked for, or all
    /// that wait where these are fewer. What is handed on waits no longer.
    pub fn take(&mut self, limit: usize) -> (bytes: Vec<u8>)
        ensures
            bytes@.len() == if limit <= old(self)@.len() {
                limit as int
            } else {
                old(self)@.len() as int
            },
            bytes@ + final(self)@ == old(self)@,
    {
        proof {
            use_type_invariant(&*self);
        }
        let waiting = self.chunk.len() - self.taken;
        let count = if limit <= waiting {
            limit
        } else {
            waiting
        };
        let start = self.taken;
        let mut bytes: Vec<u8> = Vec::new();
        let mut i: usize = 0;
        while i < count
            invariant
                i <= count,
                start + count <= self.chunk.len(),
                bytes@ == self.chunk@.subrange(start as int, start + i),
            decreases count - i,
        {
            bytes.push(self.chunk[start + i]);
            assert(bytes@ =~= self.chunk@.subrange(start as int, start + i + 1));
            i += 1;
        }
        self.taken = start + count;
        assert(bytes@ + self@ =~= old(self)@);
        bytes
    }
}

} // verus!
