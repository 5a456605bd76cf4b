//! The byte streams that values travel on. A stream is supplied by the caller;
//! the codec asks of it only exact-length reads and writes.

use vstd::prelude::*;

verus! {

/// How a transfer on a stream fails.
#[derive(Debug, Clone, Copy, PartialEq, Eq, Structural)]
pub enum Fault {
    /// The stream reported its end where more bytes were expected.
    Ended,
    /// Any other failure of the stream.
    Failed,
}

/// A stream of bytes.
pub trait Stream {
    /// Whether the stream has a model, that is, whether what `ByteSource`
    /// and `ByteSink` say of it in mathematics describes it. Every contract
    /// on a stream binds modelled streams only. A stream that is implemented
    /// outside verified code keeps the default: nothing is promised of what
    /// is read from it or written to it.
    open spec fn modelled(&self) -> bool {
        false
    }
}

/// A stream to read from.
///
/// The model of a source is what it will still do: hand over the bytes of
/// `unread`, in order, and then either end or, if it is `broken`, fail.
pub trait ByteSource: Stream {
    /// The bytes that the stream will still hand over.
    open spec fn unread(&self) -> Seq<u8> {
        Seq::empty()
    }

    /// Whether the stream fails, rather than ends, where its bytes run out.
    open spec fn broken(&self) -> bool {
        false
    }

    /// Fills `buf` with the next bytes of the stream. Where the stream has
    /// fewer left, the call fails, and nothing is known of the stream or of
    /// the contents of `buf` afterwards.
    fn read_exact(&mut self, buf: &mut [u8]) -> (r: Result<(), Fault>)
        ensures
            final(buf)@.len() == old(buf)@.len(),
            old(self).modelled() && old(buf)@.len() <= old(self).unread().len() ==> {
                &&& r is Ok
                &&& final(buf)@ == old(self).unread().take(old(buf)@.len() as int)
                &&& final(self).modelled()
                &&& final(self).unread() == old(self).unread().skip(old(buf)@.len() as int)
                &&& final(self).broken() == old(self).broken()
            },
            old(self).modelled() && old(buf)@.len() > old(self).unread().len() ==> r == Err::<
                (),
                Fault,
            >(
                if old(self).broken() {
                    Fault::Failed
                } else {
                    Fault::Ended
                },
            ),
    ;
}

/// A stream to write to.
///
/// The model of a sink is the bytes that it has taken so far, and how many
/// more it will take before it fails.
pub trait ByteSink: Stream {
    /// The bytes that the stream has taken.
    open spec fn written(&self) -> Seq<u8> {
        Seq::empty()
    }

    /// The number of bytes that the stream will still take.
    open spec fn room(&self) -> nat {
        0
    }

    /// Writes all of `buf` to the stream. Where the stream has no room for
    /// it, the call fails, and nothing is known of the stream afterwards.
    fn write_all(&mut self, buf: &[u8]) -> (r: Result<(), Fault>)
        ensures
            old(self).modelled() && buf@.len() <= old(self).room() ==> {
                &&& r is Ok
                &&& final(self).modelled()
                &&& final(self).written() == old(self).written() + buf@
                &&& final(self).room() == old(self).room() - buf@.len()
            },
            old(self).modelled() && buf@.len() > old(self).room() ==> r is Err,
    ;
}

} // verus!
