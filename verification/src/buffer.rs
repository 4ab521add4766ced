//! A growable byte buffer with an explicitly tracked spare-capacity bound.
//!
//! The buffer backs both sides of the frame adapter: the input side
//! accumulates unconsumed bytes between transport reads, the output side
//! accumulates unsent bytes between flushes.  Besides the byte contents it
//! tracks a capacity bound, so that "reserve spare room", "append within the
//! spare room" and "append, growing as needed" are three explicit, checked
//! operations rather than unchecked writes into uninitialized memory.

use vstd::prelude::*;

verus! {

/// A growable byte buffer.  Its view is the sequence of bytes it holds;
/// `spec_cap` is the number of byte slots it promises to hold without
/// further reallocation.
pub struct ByteBuf {
    data: Vec<u8>,
    cap: usize,
}

impl View for ByteBuf {
    type V = Seq<u8>;

    closed spec fn view(&self) -> Seq<u8> {
        self.data@
    }
}

impl ByteBuf {
    /// The capacity bound: at least this many bytes fit without reallocation.
    pub closed spec fn spec_cap(&self) -> usize {
        self.cap
    }

    /// Well-formed: the contents fit inside the capacity bound.
    pub open spec fn wf(&self) -> bool {
        self@.len() <= self.spec_cap()
    }

    /// Number of byte slots still free under the capacity bound.
    pub open spec fn spare(&self) -> int {
        self.spec_cap() - self@.len()
    }

    /// An empty buffer with no reserved room.
    pub fn new() -> (r: ByteBuf)
        ensures
            r@ == Seq::<u8>::empty(),
            r.spec_cap() == 0,
    {
        ByteBuf { data: Vec::new(), cap: 0 }
    }

    /// An empty buffer with room for `capacity` bytes already reserved.
    pub fn with_capacity(capacity: usize) -> (r: ByteBuf)
        ensures
            r@ == Seq::<u8>::empty(),
            r.spec_cap() == capacity,
    {
        ByteBuf { data: Vec::with_capacity(capacity), cap: capacity }
    }

    pub fn len(&self) -> (r: usize)
        ensures
            r == self@.len(),
    {
        self.data.len()
    }

    pub fn is_empty(&self) -> (r: bool)
        ensures
            r == (self@.len() == 0),
    {
        self.data.len() == 0
    }

    /// The capacity bound as a value.
    pub fn cap(&self) -> (r: usize)
        ensures
            r == self.spec_cap(),
    {
        self.cap
    }

    pub fn get(&self, i: usize) -> (r: u8)
        requires
            i < self@.len(),
        ensures
            r == self@[i as int],
    {
        self.data[i]
    }

    /// The contents as a borrowed vector.
    pub fn as_vec(&self) -> (r: &Vec<u8>)
        ensures
            r@ == self@,
    {
        &self.data
    }

    /// Grow the capacity bound so that at least `additional` more bytes fit,
    /// without touching the contents.  Close to the address-space limit the
    /// bound saturates instead.
    pub fn reserve(&mut self, additional: usize)
        requires
            old(self).wf(),
        ensures
            final(self)@ == old(self)@,
            final(self).wf(),
            final(self).spec_cap() >= old(self).spec_cap(),
            old(self)@.len() + additional <= usize::MAX ==> final(self).spare() >= additional,
    {
        let len = self.data.len();
        let want = if additional <= usize::MAX - len {
            len + additional
        } else {
            usize::MAX
        };
        if self.cap < want {
            self.data.reserve(want - len);
            self.cap = want;
        }
    }

    /// Drop the contents; the reserved room stays.
    pub fn clear(&mut self)
        ensures
            final(self)@ == Seq::<u8>::empty(),
            final(self).spec_cap() == old(self).spec_cap(),
            final(self).wf(),
    {
        self.data.clear();
    }

    /// Append one byte, growing the capacity bound only when it is exhausted.
    pub fn push(&mut self, b: u8)
        ensures
            final(self)@ == old(self)@.push(b),
            final(self).wf(),
            final(self).spec_cap() as int == if old(self).spec_cap() >= old(self)@.len() + 1 {
                old(self).spec_cap() as int
            } else {
                old(self)@.len() + 1 as int
            },
    {
        self.data.push(b);
        let l = self.data.len();
        if self.cap < l {
            self.cap = l;
        }
    }

    /// Append the first `n` bytes of `src` into the spare room; the capacity
    /// bound does not move.  This is the "write into the spare region and
    /// commit" step that a transport read performs.
    pub fn append_within(&mut self, src: &Vec<u8>, n: usize)
        requires
            old(self).wf(),
            n <= src@.len(),
            n <= old(self).spare(),
        ensures
            final(self)@ == old(self)@ + src@.take(n as int),
            final(self).spec_cap() == old(self).spec_cap(),
            final(self).wf(),
    {
        let mut i: usize = 0;
        while i < n
            invariant
                i <= n,
                n <= src@.len(),
                n <= old(self).spare(),
                old(self).wf(),
                self@ == old(self)@ + src@.take(i as int),
                self.spec_cap() == old(self).spec_cap(),
            decreases n - i,
        {
            proof {
                assert(src@.take(i + 1) == src@.take(i as int).push(src@[i as int]));
            }
            self.data.push(src[i]);
            i = i + 1;
        }
        proof {
            assert(self@ == old(self)@ + src@.take(n as int));
        }
    }

    /// Append all of `src`, growing the capacity bound as needed.
    pub fn append(&mut self, src: &Vec<u8>)
        requires
            old(self).wf(),
        ensures
            final(self)@ == old(self)@ + src@,
            final(self).wf(),
            final(self).spec_cap() >= old(self).spec_cap(),
    {
        let mut i: usize = 0;
        let n = src.len();
        while i < n
            invariant
                i <= n,
                n == src@.len(),
                self@ == old(self)@ + src@.take(i as int),
                self.wf(),
                self.spec_cap() >= old(self).spec_cap(),
            decreases n - i,
        {
            proof {
                assert(src@.take(i + 1) == src@.take(i as int).push(src@[i as int]));
            }
            self.push(src[i]);
            i = i + 1;
        }
        proof {
            assert(src@.take(n as int) == src@);
        }
    }
}

} // verus!
