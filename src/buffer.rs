use vstd::prelude::*;

verus! {

/// `n` zero bytes.
pub open spec fn zeros(n: nat) -> Seq<u8> {
    Seq::new(n, |i: int| 0u8)
}

/// A buffer of `len` bytes whose front holds `read` and whose tail is zero.
pub open spec fn padded(read: Seq<u8>, len: nat) -> Seq<u8> {
    read + zeros((len - read.len()) as nat)
}

/// A zero-filled buffer of fixed size that reads fill from the front.
pub struct FillBuffer {
    data: Vec<u8>,
    filled: usize,
}

impl FillBuffer {
    /// The bytes placed so far, in order.
    pub closed spec fn read_so_far(&self) -> Seq<u8> {
        self.data@.take(self.filled as int)
    }

    /// The fixed size of the buffer.
    pub closed spec fn size(&self) -> nat {
        self.data@.len()
    }

    /// The bytes placed so far fit, and everything after them is zero.
    pub closed spec fn wf(&self) -> bool {
        &&& self.filled <= self.data@.len()
        &&& self.data@ == padded(self.read_so_far(), self.size())
    }

    /// A buffer of `len` zero bytes, none of them read yet.
    pub fn new(len: usize) -> (r: FillBuffer)
        ensures
            r.wf(),
            r.size() == len,
            r.read_so_far() == Seq::<u8>::empty(),
    {
        let data: Vec<u8> = vec![0u8; len];
        let r = FillBuffer { data, filled: 0 };
        assert(r.read_so_far() =~= Seq::<u8>::empty());
        assert(r.data@ =~= padded(r.read_so_far(), r.size()));
        r
    }

    /// The fixed size of the buffer.
    pub fn len(&self) -> (r: usize)
        ensures
            r == self.size(),
    {
        self.data.len()
    }

    /// How many bytes have been placed.
    pub fn filled(&self) -> (r: usize)
        requires
            self.wf(),
        ensures
            r == self.read_so_far().len(),
    {
        self.filled
    }

    /// How many bytes are still unread.
    pub fn remaining(&self) -> (r: usize)
        requires
            self.wf(),
        ensures
            r == self.size() - self.read_so_far().len(),
    {
        self.data.len() - self.filled
    }

    /// Places `chunk` right after the bytes read so far.
    pub fn accept(&mut self, chunk: &[u8])
        requires
            old(self).wf(),
            chunk@.len() <= old(self).size() - old(self).read_so_far().len(),
        ensures
            final(self).wf(),
            final(self).size() == old(self).size(),
            final(self).read_so_far() == old(self).read_so_far() + chunk@,
    {
        let ghost start = self.filled as int;
        let ghost before = self.data@;
        let size = self.data.len();
        let mut i: usize = 0;
        while i < chunk.len()
            invariant
                0 <= start,
                start + chunk@.len() <= before.len(),
                size == before.len(),
                self.filled == start,
                self.data@.len() == before.len(),
                i <= chunk@.len(),
                forall|k: int| 0 <= k < start ==> #[trigger] self.data@[k] == before[k],
                forall|k: int| 0 <= k < i ==> #[trigger] self.data@[start + k] == chunk@[k],
                forall|k: int| start + i <= k < before.len() ==> #[trigger] self.data@[k] == before[k],
            decreases chunk@.len() - i,
        {
            let at = self.filled + i;
            self.data.set(at, chunk[i]);
            i = i + 1;
        }
        self.filled = self.filled + chunk.len();
        assert(self.read_so_far() =~= before.take(start) + chunk@) by {
            assert forall|k: int| 0 <= k < self.filled implies #[trigger] self.read_so_far()[k]
                == (before.take(start) + chunk@)[k] by {
                if k >= start {
                    assert(self.data@[start + (k - start)] == chunk@[k - start]);
                }
            }
        }
        assert(self.data@ =~= padded(self.read_so_far(), self.size())) by {
            assert forall|k: int| self.filled <= k < self.data@.len() implies #[trigger] self.data@[k]
                == 0u8 by {
                assert(before[k] == padded(before.take(start), before.len())[k]);
            }
        }
    }

    /// Hands out the whole buffer: the bytes read, then zeros up to its size.
    pub fn into_bytes(self) -> (r: Vec<u8>)
        requires
            self.wf(),
        ensures
            r@ == padded(self.read_so_far(), self.size()),
    {
        self.data
    }
}

} // verus!
