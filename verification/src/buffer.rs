//! A stream in memory.

use crate::stream::{ByteSink, ByteSource, Fault, Stream};
use vstd::prelude::*;

verus! {

/// A stream over a vector of bytes, with a position in it. Reads hand over
/// the bytes from the position on; writes replace the bytes at the position
/// and lengthen the vector where they pass its end. Both move the position
/// forward. The vector never grows beyond the buffer's limit.
pub struct Buffer {
    data: Vec<u8>,
    pos: usize,
    limit: usize,
}

impl Buffer {
    #[verifier::type_invariant]
    spec fn inv(self) -> bool {
        self.pos <= self.data@.len() <= self.limit
    }

    /// The bytes that the buffer holds.
    pub closed spec fn contents(&self) -> Seq<u8> {
        self.data@
    }

    /// The place in the contents of the next read or write.
    pub closed spec fn offset(&self) -> nat {
        self.pos as nat
    }

    /// The length that the contents cannot pass.
    pub closed spec fn capacity(&self) -> nat {
        self.limit as nat
    }

    /// A buffer over `data`, positioned at its start, that grows as far as
    /// the machine can address.
    pub fn new(data: Vec<u8>) -> (b: Buffer)
        ensures
            b.contents() == data@,
            b.offset() == 0,
            b.capacity() == usize::MAX,
    {
        let _ = data.len();
        Buffer { data, pos: 0, limit: usize::MAX }
    }

    /// A buffer over `data`, positioned at its start, whose contents grow to
    /// `limit` bytes at most, or to the length of `data` where that is more.
    pub fn bounded(data: Vec<u8>, limit: usize) -> (b: Buffer)
        ensures
            b.contents() == data@,
            b.offset() == 0,
            b.capacity() == if limit >= data@.len() { limit as nat } else { data@.len() },
    {
        let len = data.len();
        Buffer { data, pos: 0, limit: if limit >= len { limit } else { len } }
    }

    /// The place in the contents of the next read or write.
    pub fn position(&self) -> (p: usize)
        ensures
            p == self.offset(),
            p <= self.contents().len(),
    {
        proof {
            use_type_invariant(self);
        }
        self.pos
    }

    /// Moves to `pos`, or to the end of the contents where `pos` lies beyond it.
    pub fn set_position(&mut self, pos: usize)
        ensures
            final(self).contents() == old(self).contents(),
            final(self).capacity() == old(self).capacity(),
            final(self).offset() == if pos <= old(self).contents().len() {
                pos as nat
            } else {
                old(self).contents().len()
            },
    {
        proof {
            use_type_invariant(&*self);
        }
        let len = self.data.len();
        self.pos = if pos <= len { pos } else { len };
    }

    /// The bytes that the buffer holds.
    pub fn get_ref(&self) -> (data: &Vec<u8>)
        ensures
            data@ == self.contents(),
    {
        &self.data
    }

    /// Gives up the buffer for the bytes that it holds.
    pub fn into_inner(self) -> (data: Vec<u8>)
        ensures
            data@ == self.contents(),
    {
        self.data
    }
}

/// The bytes of `contents` from the place `from` on, which a write that ends
/// at `from` leaves as they are: none where `from` lies beyond them.
pub open spec fn kept(contents: Seq<u8>, from: int) -> Seq<u8> {
    if 0 <= from <= contents.len() {
        contents.skip(from)
    } else {
        Seq::empty()
    }
}

impl Stream for Buffer {
    /// A buffer is what its contents, position and capacity say.
    open spec fn modelled(&self) -> bool {
        true
    }
}

impl ByteSource for Buffer {
    open spec fn unread(&self) -> Seq<u8> {
        self.contents().skip(self.offset() as int)
    }

    /// A buffer ends where its bytes run out.
    open spec fn broken(&self) -> bool {
        false
    }

    fn read_exact(&mut self, buf: &mut [u8]) -> (r: Result<(), Fault>)
        ensures
            final(self).contents() == old(self).contents(),
            final(self).capacity() == old(self).capacity(),
            r is Ok ==> final(self).offset() == old(self).offset() + old(buf)@.len(),
            r is Err ==> final(self).offset() == old(self).offset() && final(buf)@ == old(buf)@,
    {
        proof {
            use_type_invariant(&*self);
        }
        let n = buf.len();
        if self.data.len() - self.pos < n {
            return Err(Fault::Ended);
        }
        let mut i: usize = 0;
        while i < n
            invariant
                i <= n,
                n == buf@.len(),
                self.pos + n <= self.data@.len() <= usize::MAX,
                forall|k: int| 0 <= k < i ==> buf@[k] == self.data@[self.pos + k],
            decreases n - i,
        {
            buf[i] = self.data[self.pos + i];
            i += 1;
        }
        assert(buf@ =~= old(self).unread().take(n as int));
        self.pos = self.pos + n;
        assert(self.unread() =~= old(self).unread().skip(n as int));
        Ok(())
    }
}

impl ByteSink for Buffer {
    /// What was written is what lies before the position.
    open spec fn written(&self) -> Seq<u8> {
        self.contents().take(self.offset() as int)
    }

    open spec fn room(&self) -> nat {
        (self.capacity() - self.offset()) as nat
    }

    fn write_all(&mut self, buf: &[u8]) -> (r: Result<(), Fault>)
        ensures
            final(self).capacity() == old(self).capacity(),
            r is Ok ==> final(self).offset() == old(self).offset() + buf@.len(),
            r is Ok ==> final(self).contents() == old(self).written() + buf@ + kept(
                old(self).contents(),
                final(self).offset() as int,
            ),
            r is Err ==> *final(self) == *old(self),
    {
        proof {
            use_type_invariant(&*self);
        }
        let n = buf.len();
        let start = self.pos;
        if self.limit - start < n {
            return Err(Fault::Failed);
        }
        // The bytes are worked on outside the buffer, which is empty meanwhile.
        let mut data: Vec<u8> = Vec::new();
        self.pos = 0;
        core::mem::swap(&mut self.data, &mut data);
        let mut i: usize = 0;
        while i < n
            invariant
                i <= n,
                n == buf@.len(),
                start + i <= data@.len(),
                start + n <= old(self).limit,
                old(self).data@.len() <= old(self).limit,
                data@.take(start + i) == old(self).data@.take(start as int) + buf@.take(i as int),
                data@.len() == if start + i <= old(self).data@.len() {
                    old(self).data@.len()
                } else {
                    (start + i) as nat
                },
                forall|k: int| start + i <= k < data@.len() ==> data@[k] == old(self).data@[k],
            decreases n - i,
        {
            let ghost before = data@;
            if start + i < data.len() {
                data[start + i] = buf[i];
            } else {
                data.push(buf[i]);
            }
            assert(data@.take(start + i + 1) =~= before.take(start + i).push(buf@[i as int]));
            assert(buf@.take(i + 1) =~= buf@.take(i as int).push(buf@[i as int]));
            i += 1;
        }
        assert(buf@.take(n as int) =~= buf@);
        assert(data@ =~= data@.take(start + n) + kept(old(self).data@, start + n));
        self.data = data;
        self.pos = start + n;
        Ok(())
    }
}

} // verus!
