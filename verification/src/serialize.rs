//! Encoding: from a value to its bytes on a stream.

use crate::bigendian::{
    be_bytes, lemma_be_bytes_len, lemma_spans, twos_complement, write_i16, write_i32, write_i64,
    write_u16, write_u32, write_u64,
};
use crate::stream::{ByteSink, Fault};
use crate::wire::{lemma_wire_of_all_step, wire_of_all, Wire};
use crate::SlimError;
use std::borrow::Cow;
use vstd::prelude::*;

verus! {

/// A type whose values can be written to a stream of type `W`.
pub trait Serialize<W>: Wire {
    /// Writes the value's bytes to `stream`, and nothing else. The call
    /// fails where the stream has no room for all of them; the stream may
    /// then have taken some. Whatever the stream, a call that fails reports
    /// a stream error, and a value that was written is one that the format
    /// can hold.
    fn encode_stream(&self, stream: &mut W) -> (r: Result<(), SlimError>) where W: ByteSink
        ensures
            old(stream).modelled() && self.wire().len() <= old(stream).room() ==> {
                &&& r is Ok
                &&& final(stream).modelled()
                &&& final(stream).written() == old(stream).written() + self.wire()
                &&& final(stream).room() == old(stream).room() - self.wire().len()
            },
            old(stream).modelled() && self.wire().len() > old(stream).room() ==> r is Err,
            r matches Err(e) ==> e == SlimError::StreamError,
            r is Ok ==> self.fits(),
    ;
}

/// What a write that failed is to the codec: a stream error, however the
/// stream names the failure.
pub fn write_failure(fault: Fault) -> (e: SlimError)
    ensures
        e == SlimError::StreamError,
{
    match fault {
        Fault::Ended => SlimError::StreamError,
        Fault::Failed => SlimError::StreamError,
    }
}

/// Writes all of `buf` to the stream. A write that fails is a stream error,
/// however the stream names the failure.
pub fn write_buf<W: ByteSink>(s: &mut W, buf: &[u8]) -> (r: Result<(), SlimError>)
    ensures
        old(s).modelled() && buf@.len() <= old(s).room() ==> {
            &&& r is Ok
            &&& final(s).modelled()
            &&& final(s).written() == old(s).written() + buf@
            &&& final(s).room() == old(s).room() - buf@.len()
        },
        old(s).modelled() && buf@.len() > old(s).room() ==> r is Err,
        r matches Err(e) ==> e == SlimError::StreamError,
{
    match s.write_all(buf) {
        Ok(_) => Ok(()),
        Err(fault) => Err(write_failure(fault)),
    }
}

impl<'a, W: ByteSink> Serialize<W> for &'a str {
    fn encode_stream(&self, s: &mut W) -> (r: Result<(), SlimError>) {
        let bytes = self.as_bytes();
        let count: u64 = bytes.len() as u64;
        proof {
            lemma_be_bytes_len(count as nat, 8);
        }
        <u64 as Serialize<W>>::encode_stream(&count, s)?;
        assert(old(s).modelled() ==> s.written() + bytes@ =~= old(s).written() + self.wire());
        write_buf(s, bytes)
    }
}

impl<'a, W: ByteSink, T: Serialize<W> + Clone> Serialize<W> for Cow<'a, T> {
    fn encode_stream(&self, s: &mut W) -> (r: Result<(), SlimError>) {
        match self {
            Cow::Borrowed(a) => a.encode_stream(s),
            Cow::Owned(a) => a.encode_stream(s),
        }
    }
}

impl<W: ByteSink> Serialize<W> for String {
    fn encode_stream(&self, s: &mut W) -> (r: Result<(), SlimError>) {
        let bytes = self.as_str().as_bytes();
        let count: u64 = bytes.len() as u64;
        proof {
            lemma_be_bytes_len(count as nat, 8);
        }
        <u64 as Serialize<W>>::encode_stream(&count, s)?;
        assert(old(s).modelled() ==> s.written() + bytes@ =~= old(s).written() + self.wire());
        write_buf(s, bytes)
    }
}

impl<W: ByteSink, T: Serialize<W>> Serialize<W> for Vec<T> {
    fn encode_stream(&self, s: &mut W) -> (r: Result<(), SlimError>) {
        let count: u64 = self.len() as u64;
        proof {
            lemma_be_bytes_len(count as nat, 8);
        }
        <u64 as Serialize<W>>::encode_stream(&count, s)?;
        let mut i: usize = 0;
        assert(self@.take(0) =~= Seq::<T>::empty());
        while i < self.len()
            invariant
                i <= self@.len(),
                be_bytes(self@.len(), 8).len() == 8,
                forall|j: int| 0 <= j < i ==> (#[trigger] self@[j]).fits(),
                old(s).modelled() ==> {
                    &&& s.modelled()
                    &&& 8 + wire_of_all(self@.take(i as int)).len() <= old(s).room()
                    &&& s.written() == old(s).written() + be_bytes(self@.len(), 8) + wire_of_all(
                        self@.take(i as int),
                    )
                    &&& s.room() == old(s).room() - 8 - wire_of_all(self@.take(i as int)).len()
                },
            decreases self@.len() - i,
        {
            proof {
                lemma_wire_of_all_step(self@, i as int);
            }
            self[i].encode_stream(s)?;
            assert(old(s).modelled() ==> s.written() =~= old(s).written() + be_bytes(
                self@.len(),
                8,
            ) + wire_of_all(self@.take(i + 1)));
            i += 1;
        }
        assert(self@.take(i as int) =~= self@);
        assert(old(s).written() + be_bytes(self@.len(), 8) + wire_of_all(self@) =~= old(
            s,
        ).written() + self.wire());
        Ok(())
    }
}

impl<W: ByteSink> Serialize<W> for u8 {
    fn encode_stream(&self, s: &mut W) -> (r: Result<(), SlimError>) {
        let buf: [u8; 1] = [*self];
        assert(buf@ =~= self.wire());
        write_buf(s, &buf)
    }
}

impl<W: ByteSink> Serialize<W> for u16 {
    fn encode_stream(&self, s: &mut W) -> (r: Result<(), SlimError>) {
        let mut buf: [u8; 2] = [0; 2];
        write_u16(&mut buf, *self);
        proof {
            lemma_be_bytes_len(*self as nat, 2);
            assert(buf@ =~= self.wire());
        }
        write_buf(s, &buf)
    }
}

impl<W: ByteSink> Serialize<W> for i16 {
    fn encode_stream(&self, s: &mut W) -> (r: Result<(), SlimError>) {
        let mut buf: [u8; 2] = [0; 2];
        write_i16(&mut buf, *self);
        proof {
            lemma_be_bytes_len(twos_complement(*self as int, 2), 2);
            assert(buf@ =~= self.wire());
        }
        write_buf(s, &buf)
    }
}

impl<W: ByteSink> Serialize<W> for u32 {
    fn encode_stream(&self, s: &mut W) -> (r: Result<(), SlimError>) {
        let mut buf: [u8; 4] = [0; 4];
        write_u32(&mut buf, *self);
        proof {
            lemma_be_bytes_len(*self as nat, 4);
            assert(buf@ =~= self.wire());
        }
        write_buf(s, &buf)
    }
}

impl<W: ByteSink> Serialize<W> for i32 {
    fn encode_stream(&self, s: &mut W) -> (r: Result<(), SlimError>) {
        let mut buf: [u8; 4] = [0; 4];
        write_i32(&mut buf, *self);
        proof {
            lemma_be_bytes_len(twos_complement(*self as int, 4), 4);
            assert(buf@ =~= self.wire());
        }
        write_buf(s, &buf)
    }
}

impl<W: ByteSink> Serialize<W> for u64 {
    fn encode_stream(&self, s: &mut W) -> (r: Result<(), SlimError>) {
        let mut buf: [u8; 8] = [0; 8];
        write_u64(&mut buf, *self);
        proof {
            lemma_be_bytes_len(*self as nat, 8);
            assert(buf@ =~= self.wire());
        }
        write_buf(s, &buf)
    }
}

impl<W: ByteSink> Serialize<W> for i64 {
    fn encode_stream(&self, s: &mut W) -> (r: Result<(), SlimError>) {
        let mut buf: [u8; 8] = [0; 8];
        write_i64(&mut buf, *self);
        proof {
            lemma_be_bytes_len(twos_complement(*self as int, 8), 8);
            assert(buf@ =~= self.wire());
        }
        write_buf(s, &buf)
    }
}

impl<W: ByteSink> Serialize<W> for i8 {
    fn encode_stream(&self, s: &mut W) -> (r: Result<(), SlimError>) {
        proof {
            lemma_spans();
        }
        let byte: u8 = if *self < 0 {
            (*self - i8::MIN) as u8 + 128
        } else {
            *self as u8
        };
        let buf: [u8; 1] = [byte];
        assert(buf@ =~= self.wire());
        write_buf(s, &buf)
    }
}

impl<W: ByteSink> Serialize<W> for bool {
    fn encode_stream(&self, s: &mut W) -> (r: Result<(), SlimError>) {
        let buf: [u8; 1] = [if *self { 1 } else { 0 }];
        assert(buf@ =~= self.wire());
        write_buf(s, &buf)
    }
}

impl<W: ByteSink> Serialize<W> for () {
    /// The unit is no bytes: whatever the stream, the call succeeds and
    /// leaves the stream as it was.
    fn encode_stream(&self, s: &mut W) -> (r: Result<(), SlimError>)
        ensures
            r is Ok,
            *final(s) == *old(s),
    {
        assert(s.written() + Seq::<u8>::empty() =~= s.written());
        Ok(())
    }
}

impl<W: ByteSink, T: Serialize<W>, E: Serialize<W>> Serialize<W> for Result<T, E> {
    fn encode_stream(&self, s: &mut W) -> (r: Result<(), SlimError>) {
        match self {
            Ok(a) => {
                <u8 as Serialize<W>>::encode_stream(&0u8, s)?;
                assert(old(s).modelled() ==> s.written() + a.wire() =~= old(s).written()
                    + self.wire());
                a.encode_stream(s)
            },
            Err(a) => {
                <u8 as Serialize<W>>::encode_stream(&1u8, s)?;
                assert(old(s).modelled() ==> s.written() + a.wire() =~= old(s).written()
                    + self.wire());
                a.encode_stream(s)
            },
        }
    }
}

impl<W: ByteSink, T: Serialize<W>, E: Serialize<W>> Serialize<W> for (T, E) {
    fn encode_stream(&self, s: &mut W) -> (r: Result<(), SlimError>) {
        self.0.encode_stream(s)?;
        assert(old(s).modelled() ==> s.written() + self.1.wire() =~= old(s).written()
            + self.wire());
        self.1.encode_stream(s)
    }
}

impl<W: ByteSink, T: Serialize<W>> Serialize<W> for Option<T> {
    fn encode_stream(&self, s: &mut W) -> (r: Result<(), SlimError>) {
        match self {
            None => <u8 as Serialize<W>>::encode_stream(&0u8, s),
            Some(a) => {
                <u8 as Serialize<W>>::encode_stream(&1u8, s)?;
                assert(old(s).modelled() ==> s.written() + a.wire() =~= old(s).written()
                    + self.wire());
                a.encode_stream(s)
            },
        }
    }
}

impl<W: ByteSink> Serialize<W> for SlimError {
    fn encode_stream(&self, s: &mut W) -> (r: Result<(), SlimError>) {
        let buf: u8 = match *self {
            SlimError::DeserializationError => 0,
            SlimError::SerializationError => 1,
            SlimError::StreamClosed => 2,
            SlimError::StreamError => 3,
        };
        <u8 as Serialize<W>>::encode_stream(&buf, s)
    }
}

} // verus!
