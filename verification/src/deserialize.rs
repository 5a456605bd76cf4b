//! Decoding: from the bytes on a stream to a value.

use crate::bigendian::{
    lemma_be_value_bound, lemma_spans, read_i16, read_i32, read_i64, read_u16, read_u32, read_u64,
};
use crate::stream::{ByteSource, Fault};
use crate::wire::{after, models, parse_all, Wire};
use crate::SlimError;
use std::borrow::Cow;
use vstd::prelude::*;
use vstd::string::StringSliceAdditionalSpecFns;
use vstd::utf8::{encode_utf8_decode_utf8, valid_utf8};

verus! {

/// The error that a decode reports where the bytes of a stream ask for `e`:
/// a stream that breaks where its bytes run out is no closed stream.
pub open spec fn reported(e: SlimError, broken: bool) -> SlimError {
    if broken && e == SlimError::StreamClosed {
        SlimError::StreamError
    } else {
        e
    }
}

/// A type whose values can be read from a stream of type `R`.
pub trait Deserialize<R>: Wire + Sized {
    /// Reads one value from the stream: the value that the wire format sees
    /// in the bytes that the stream hands over, or the failure that it sees
    /// there. After a failure nothing is known of the stream's position.
    /// Whatever the stream, no call reports a serialization error.
    fn decode_stream(r: &mut R) -> (res: Result<Self, SlimError>) where R: ByteSource
        ensures
            old(r).modelled() ==> match Self::parse(old(r).unread()) {
                Ok((m, rest)) => {
                    &&& res matches Ok(v)
                    &&& v.model() == m
                    &&& final(r).modelled()
                    &&& final(r).unread() == rest
                    &&& final(r).broken() == old(r).broken()
                },
                Err(e) => res matches Err(f) && f == reported(e, old(r).broken()),
            },
            res matches Err(f) ==> f != SlimError::SerializationError,
    ;
}

/// What a read that failed is to the codec: a stream that reported its end
/// is closed, and every other failure is a stream error.
pub fn read_failure(fault: Fault) -> (e: SlimError)
    ensures
        e == match fault {
            Fault::Ended => SlimError::StreamClosed,
            Fault::Failed => SlimError::StreamError,
        },
{
    match fault {
        Fault::Ended => SlimError::StreamClosed,
        Fault::Failed => SlimError::StreamError,
    }
}

/// Fills `buf` with the next bytes of the stream. Where the stream has fewer
/// left, it is closed if it ended there, and in error otherwise.
pub fn fill_buf<R: ByteSource>(s: &mut R, buf: &mut [u8]) -> (r: Result<(), SlimError>)
    ensures
        final(buf)@.len() == old(buf)@.len(),
        old(s).modelled() && old(buf)@.len() <= old(s).unread().len() ==> {
            &&& r is Ok
            &&& final(buf)@ == old(s).unread().take(old(buf)@.len() as int)
            &&& final(s).modelled()
            &&& final(s).unread() == old(s).unread().skip(old(buf)@.len() as int)
            &&& final(s).broken() == old(s).broken()
        },
        old(s).modelled() && old(buf)@.len() > old(s).unread().len() ==> r == Err::<(), SlimError>(
            reported(SlimError::StreamClosed, old(s).broken()),
        ),
        r matches Err(e) ==> e == SlimError::StreamClosed || e == SlimError::StreamError,
{
    match s.read_exact(buf) {
        Err(fault) => Err(read_failure(fault)),
        Ok(_) => Ok(()),
    }
}

/// The most bytes that are asked of a stream at once while a text is read.
/// A length prefix is the peer's word: memory is taken as the bytes arrive,
/// not as the prefix announces them.
const CHUNK: usize = 4096;

/// Reads the next `count` bytes of the stream, `CHUNK` bytes at a time.
fn read_bytes<R: ByteSource>(s: &mut R, count: u64) -> (r: Result<Vec<u8>, SlimError>)
    ensures
        old(s).modelled() && count <= old(s).unread().len() ==> {
            &&& r matches Ok(bytes)
            &&& bytes@ == old(s).unread().take(count as int)
            &&& final(s).modelled()
            &&& final(s).unread() == old(s).unread().skip(count as int)
            &&& final(s).broken() == old(s).broken()
        },
        old(s).modelled() && count > old(s).unread().len() ==> r == Err::<Vec<u8>, SlimError>(
            reported(SlimError::StreamClosed, old(s).broken()),
        ),
        r matches Err(e) ==> e == SlimError::StreamClosed || e == SlimError::StreamError,
{
    let mut bytes: Vec<u8> = Vec::new();
    let mut left: u64 = count;
    while left > 0
        invariant
            left <= count,
            old(s).modelled() ==> {
                &&& s.modelled()
                &&& bytes@.len() == count - left
                &&& bytes@ + s.unread() == old(s).unread()
                &&& s.broken() == old(s).broken()
            },
        decreases left,
    {
        let n: usize = if left > CHUNK as u64 {
            CHUNK
        } else {
            left as usize
        };
        let mut part: Vec<u8> = vec![0u8; n];
        let ghost before = s.unread();
        fill_buf(s, part.as_mut_slice())?;
        bytes.append(&mut part);
        left = left - n as u64;
        assert(old(s).modelled() ==> bytes@ + s.unread() =~= old(s).unread()) by {
            if old(s).modelled() {
                assert(before =~= before.take(n as int) + before.skip(n as int));
            }
        }
    }
    assert(old(s).modelled() ==> bytes@ =~= old(s).unread().take(count as int));
    assert(old(s).modelled() ==> s.unread() =~= old(s).unread().skip(count as int));
    Ok(bytes)
}

/// `core::str::from_utf8`: the text whose UTF-8 form `bytes` is, where it is
/// one; nothing where `bytes` is not UTF-8.
#[verifier::external_body]
fn utf8_text(bytes: &[u8]) -> (r: Option<&str>)
    ensures
        r is Some <==> valid_utf8(bytes@),
        r matches Some(text) ==> text.spec_bytes() == bytes@,
{
    match core::str::from_utf8(bytes) {
        Ok(text) => Some(text),
        Err(_) => None,
    }
}

impl<'a, R: ByteSource, T: Deserialize<R> + Clone> Deserialize<R> for Cow<'a, T> {
    fn decode_stream(s: &mut R) -> (res: Result<Cow<'a, T>, SlimError>) {
        Ok(Cow::Owned(T::decode_stream(s)?))
    }
}

impl<'a, R: ByteSource> Deserialize<R> for Cow<'a, str> {
    fn decode_stream(s: &mut R) -> (res: Result<Cow<'a, str>, SlimError>) {
        let size = <u64 as Deserialize<R>>::decode_stream(s)?;
        proof {
            lemma_be_value_bound(old(s).unread().take(8));
            lemma_spans();
        }
        let buf = read_bytes(s, size)?;
        match utf8_text(buf.as_slice()) {
            Some(text) => {
                proof {
                    encode_utf8_decode_utf8(text@);
                }
                Ok(Cow::Owned(text.to_owned()))
            },
            None => Err(SlimError::DeserializationError),
        }
    }
}

impl<R: ByteSource> Deserialize<R> for String {
    fn decode_stream(s: &mut R) -> (res: Result<String, SlimError>) {
        let size = <u64 as Deserialize<R>>::decode_stream(s)?;
        proof {
            lemma_be_value_bound(old(s).unread().take(8));
            lemma_spans();
        }
        let buf = read_bytes(s, size)?;
        match utf8_text(buf.as_slice()) {
            Some(text) => {
                proof {
                    encode_utf8_decode_utf8(text@);
                }
                Ok(text.to_owned())
            },
            None => Err(SlimError::DeserializationError),
        }
    }
}

/// The most items for which room is made before any of them is read. A
/// count prefix is the peer's word, as a length prefix is.
const RESERVE: u64 = 1024;

impl<R: ByteSource, T: Deserialize<R>> Deserialize<R> for Vec<T> {
    fn decode_stream(s: &mut R) -> (res: Result<Vec<T>, SlimError>) {
        let size = <u64 as Deserialize<R>>::decode_stream(s)?;
        let hint: usize = if size > RESERVE {
            RESERVE as usize
        } else {
            size as usize
        };
        let mut buf: Vec<T> = Vec::with_capacity(hint);
        let ghost whole = parse_all::<T>(s.unread(), size as nat);
        proof {
            lemma_be_value_bound(old(s).unread().take(8));
            lemma_spans();
            assert(models(buf@) =~= Seq::<T::Model>::empty());
            assert(after(models(buf@), whole) == whole) by {
                if let Ok((others, left)) = whole {
                    assert(models(buf@) + others =~= others);
                }
            }
        }
        let mut i: u64 = 0;
        while i < size
            invariant
                i <= size,
                buf@.len() == i,
                old(s).modelled() ==> {
                    &&& s.modelled()
                    &&& s.broken() == old(s).broken()
                    &&& <Vec<T> as Wire>::parse(old(s).unread()) == whole
                    &&& whole == after(
                        models(buf@),
                        parse_all::<T>(s.unread(), (size - i) as nat),
                    )
                },
            decreases size - i,
        {
            let ghost read = models(buf@);
            match T::decode_stream(s) {
                Ok(item) => {
                    buf.push(item);
                    proof {
                        assert(models(buf@) =~= read.push(item.model()));
                        if let Ok((others, left)) = parse_all::<T>(
                            s.unread(),
                            (size - i - 1) as nat,
                        ) {
                            assert(read + (seq![item.model()] + others) =~= models(buf@) + others);
                        }
                    }
                },
                Err(e) => {
                    return Err(e);
                },
            }
            i += 1;
        }
        proof {
            assert(models(buf@) + Seq::<T::Model>::empty() =~= models(buf@));
        }
        Ok(buf)
    }
}

impl<R: ByteSource> Deserialize<R> for u8 {
    fn decode_stream(s: &mut R) -> (res: Result<u8, SlimError>) {
        let mut buf: [u8; 1] = [0; 1];
        fill_buf(s, &mut buf)?;
        Ok(buf[0])
    }
}

impl<R: ByteSource> Deserialize<R> for u16 {
    fn decode_stream(s: &mut R) -> (res: Result<u16, SlimError>) {
        let mut buf: [u8; 2] = [0; 2];
        fill_buf(s, &mut buf)?;
        assert(buf@.take(2) =~= buf@);
        Ok(read_u16(&buf))
    }
}

impl<R: ByteSource> Deserialize<R> for i16 {
    fn decode_stream(s: &mut R) -> (res: Result<i16, SlimError>) {
        let mut buf: [u8; 2] = [0; 2];
        fill_buf(s, &mut buf)?;
        assert(buf@.take(2) =~= buf@);
        Ok(read_i16(&buf))
    }
}

impl<R: ByteSource> Deserialize<R> for u32 {
    fn decode_stream(s: &mut R) -> (res: Result<u32, SlimError>) {
        let mut buf: [u8; 4] = [0; 4];
        fill_buf(s, &mut buf)?;
        assert(buf@.take(4) =~= buf@);
        Ok(read_u32(&buf))
    }
}

impl<R: ByteSource> Deserialize<R> for i32 {
    fn decode_stream(s: &mut R) -> (res: Result<i32, SlimError>) {
        let mut buf: [u8; 4] = [0; 4];
        fill_buf(s, &mut buf)?;
        assert(buf@.take(4) =~= buf@);
        Ok(read_i32(&buf))
    }
}

impl<R: ByteSource> Deserialize<R> for u64 {
    fn decode_stream(s: &mut R) -> (res: Result<u64, SlimError>) {
        let mut buf: [u8; 8] = [0; 8];
        fill_buf(s, &mut buf)?;
        assert(buf@.take(8) =~= buf@);
        Ok(read_u64(&buf))
    }
}

impl<R: ByteSource> Deserialize<R> for i64 {
    fn decode_stream(s: &mut R) -> (res: Result<i64, SlimError>) {
        let mut buf: [u8; 8] = [0; 8];
        fill_buf(s, &mut buf)?;
        assert(buf@.take(8) =~= buf@);
        Ok(read_i64(&buf))
    }
}

impl<R: ByteSource> Deserialize<R> for i8 {
    fn decode_stream(s: &mut R) -> (res: Result<i8, SlimError>) {
        let j = <u8 as Deserialize<R>>::decode_stream(s)?;
        proof {
            lemma_spans();
        }
        if j >= 128 {
            Ok(i8::MIN + (j - 128) as i8)
        } else {
            Ok(j as i8)
        }
    }
}

impl<R: ByteSource> Deserialize<R> for bool {
    fn decode_stream(s: &mut R) -> (res: Result<bool, SlimError>) {
        let j = <u8 as Deserialize<R>>::decode_stream(s)?;
        Ok(j != 0)
    }
}

impl<R: ByteSource> Deserialize<R> for () {
    fn decode_stream(s: &mut R) -> (res: Result<(), SlimError>) {
        Ok(())
    }
}

impl<R: ByteSource, T: Deserialize<R>, E: Deserialize<R>> Deserialize<R> for Result<T, E> {
    fn decode_stream(s: &mut R) -> (res: Result<Result<T, E>, SlimError>)
        ensures
            old(s).modelled() && old(s).unread().len() >= 1 && old(s).unread()[0] > 1 ==> {
                &&& res matches Err(SlimError::DeserializationError)
                &&& final(s).modelled()
                &&& final(s).unread() == old(s).unread().skip(1)
            },
    {
        let typebuf = <u8 as Deserialize<R>>::decode_stream(s)?;
        match typebuf {
            0 => {
                if let Ok(x) = T::decode_stream(s) {
                    return Ok(Ok(x));
                }
            },
            1 => {
                if let Ok(t) = E::decode_stream(s) {
                    return Ok(Err(t));
                }
            },
            _ => (),
        }
        Err(SlimError::DeserializationError)
    }
}

impl<R: ByteSource, T: Deserialize<R>> Deserialize<R> for Option<T> {
    fn decode_stream(s: &mut R) -> (res: Result<Option<T>, SlimError>)
        ensures
            old(s).modelled() && old(s).unread().len() >= 1 && old(s).unread()[0] > 1 ==> {
                &&& res matches Err(SlimError::DeserializationError)
                &&& final(s).modelled()
                &&& final(s).unread() == old(s).unread().skip(1)
            },
    {
        let typebuf = <u8 as Deserialize<R>>::decode_stream(s)?;
        match typebuf {
            0 => return Ok(None),
            1 => {
                if let Ok(t) = T::decode_stream(s) {
                    return Ok(Some(t));
                }
            },
            _ => (),
        }
        Err(SlimError::DeserializationError)
    }
}

impl<R: ByteSource, T: Deserialize<R>, E: Deserialize<R>> Deserialize<R> for (T, E) {
    fn decode_stream(s: &mut R) -> (res: Result<(T, E), SlimError>) {
        if let Ok(x) = T::decode_stream(s) {
            if let Ok(t) = E::decode_stream(s) {
                return Ok((x, t));
            }
        }
        Err(SlimError::DeserializationError)
    }
}

impl<R: ByteSource> Deserialize<R> for SlimError {
    fn decode_stream(s: &mut R) -> (res: Result<SlimError, SlimError>) {
        let x = <u8 as Deserialize<R>>::decode_stream(s)?;
        match x {
            0 => Ok(SlimError::SerializationError),
            1 => Ok(SlimError::DeserializationError),
            2 => Ok(SlimError::StreamClosed),
            3 => Ok(SlimError::StreamError),
            _ => Err(SlimError::DeserializationError),
        }
    }
}

} // verus!
