//! The round trip: a value that is written and read again is the same value.

use crate::bigendian::{
    be_bytes, lemma_be_bytes_len, lemma_be_value_of_bytes, lemma_spans, twos_complement,
};
use crate::wire::{models, parse_all, text_fits, text_wire, parse_text, wire_of_all, Wire};
use crate::SlimError;
use std::borrow::Cow;
use vstd::prelude::*;
use vstd::utf8::{encode_utf8, encode_utf8_decode_utf8, encode_utf8_valid_utf8};

verus! {

/// A type each of whose values comes back from its own bytes.
///
/// Every type of the wire format is one, and every type made of such types,
/// but for `SlimError` and what holds one: an error is not read back under
/// the code that it was written under.
pub trait RoundTrip: Wire {
    /// Reading the bytes of a value, whatever follows them on the stream,
    /// gives the value and leaves what follows.
    proof fn round_trip(&self, rest: Seq<u8>)
        requires
            self.fits(),
        ensures
            Self::parse(self.wire() + rest) == Ok::<(Self::Model, Seq<u8>), SlimError>(
                (self.model(), rest),
            ),
    ;
}

/// A number of `width` bytes comes back from its big-endian bytes.
pub proof fn lemma_number_comes_back(n: nat, width: nat, rest: Seq<u8>)
    requires
        n < crate::bigendian::span(width),
    ensures
        (be_bytes(n, width) + rest).len() >= width,
        crate::bigendian::be_value((be_bytes(n, width) + rest).take(width as int)) == n,
        (be_bytes(n, width) + rest).skip(width as int) == rest,
{
    lemma_be_bytes_len(n, width);
    lemma_be_value_of_bytes(n, width);
    assert((be_bytes(n, width) + rest).take(width as int) =~= be_bytes(n, width));
    assert((be_bytes(n, width) + rest).skip(width as int) =~= rest);
}

/// A text comes back from its bytes.
pub proof fn lemma_text_comes_back(chars: Seq<char>, rest: Seq<u8>)
    requires
        text_fits(chars),
    ensures
        parse_text(text_wire(chars) + rest) == Ok::<(Seq<char>, Seq<u8>), SlimError>(
            (chars, rest),
        ),
{
    let body = encode_utf8(chars);
    lemma_spans();
    lemma_number_comes_back(body.len(), 8, body + rest);
    assert(text_wire(chars) + rest =~= be_bytes(body.len(), 8) + (body + rest));
    assert((body + rest).take(body.len() as int) =~= body);
    assert((body + rest).skip(body.len() as int) =~= rest);
    encode_utf8_valid_utf8(chars);
    encode_utf8_decode_utf8(chars);
}

/// Items come back from their bytes, one after the other.
pub proof fn lemma_items_come_back<T: RoundTrip>(items: Seq<T>, rest: Seq<u8>)
    requires
        forall|i: int| 0 <= i < items.len() ==> (#[trigger] items[i]).fits(),
    ensures
        parse_all::<T>(wire_of_all(items) + rest, items.len()) == Ok::<
            (Seq<T::Model>, Seq<u8>),
            SlimError,
        >((models(items), rest)),
    decreases items.len(),
{
    if items.len() == 0 {
        assert(wire_of_all(items) + rest =~= rest);
        assert(models(items) =~= Seq::<T::Model>::empty());
    } else {
        let first = items.first();
        let others = items.drop_first();
        let tail = wire_of_all(others) + rest;
        assert(first.fits());
        assert forall|i: int| 0 <= i < others.len() implies (#[trigger] others[i]).fits() by {
            assert(others[i] == items[i + 1]);
        }
        first.round_trip(tail);
        lemma_items_come_back(others, rest);
        assert(wire_of_all(items) + rest =~= first.wire() + tail);
        assert(seq![first.model()] + models(others) =~= models(items));
    }
}

impl RoundTrip for u8 {
    proof fn round_trip(&self, rest: Seq<u8>) {
        assert((self.wire() + rest).skip(1) =~= rest);
    }
}

impl RoundTrip for i8 {
    proof fn round_trip(&self, rest: Seq<u8>) {
        lemma_spans();
        assert((self.wire() + rest).skip(1) =~= rest);
    }
}

impl RoundTrip for bool {
    proof fn round_trip(&self, rest: Seq<u8>) {
        assert((self.wire() + rest).skip(1) =~= rest);
    }
}

impl RoundTrip for () {
    proof fn round_trip(&self, rest: Seq<u8>) {
        assert(self.wire() + rest =~= rest);
    }
}

impl RoundTrip for u16 {
    proof fn round_trip(&self, rest: Seq<u8>) {
        lemma_spans();
        lemma_number_comes_back(*self as nat, 2, rest);
    }
}

impl RoundTrip for u32 {
    proof fn round_trip(&self, rest: Seq<u8>) {
        lemma_spans();
        lemma_number_comes_back(*self as nat, 4, rest);
    }
}

impl RoundTrip for u64 {
    proof fn round_trip(&self, rest: Seq<u8>) {
        lemma_spans();
        lemma_number_comes_back(*self as nat, 8, rest);
    }
}

impl RoundTrip for i16 {
    proof fn round_trip(&self, rest: Seq<u8>) {
        lemma_spans();
        lemma_number_comes_back(twos_complement(*self as int, 2), 2, rest);
    }
}

impl RoundTrip for i32 {
    proof fn round_trip(&self, rest: Seq<u8>) {
        lemma_spans();
        lemma_number_comes_back(twos_complement(*self as int, 4), 4, rest);
    }
}

impl RoundTrip for i64 {
    proof fn round_trip(&self, rest: Seq<u8>) {
        lemma_spans();
        lemma_number_comes_back(twos_complement(*self as int, 8), 8, rest);
    }
}

impl RoundTrip for String {
    proof fn round_trip(&self, rest: Seq<u8>) {
        lemma_text_comes_back(self@, rest);
    }
}

impl<'a> RoundTrip for &'a str {
    proof fn round_trip(&self, rest: Seq<u8>) {
        lemma_text_comes_back(self@, rest);
    }
}

impl<'a> RoundTrip for Cow<'a, str> {
    proof fn round_trip(&self, rest: Seq<u8>) {
        lemma_text_comes_back(self@, rest);
    }
}

impl<'a, T: RoundTrip + Clone> RoundTrip for Cow<'a, T> {
    proof fn round_trip(&self, rest: Seq<u8>) {
        match self {
            Cow::Borrowed(a) => a.round_trip(rest),
            Cow::Owned(a) => a.round_trip(rest),
        }
    }
}

impl<T: RoundTrip> RoundTrip for Vec<T> {
    proof fn round_trip(&self, rest: Seq<u8>) {
        let body = wire_of_all(self@) + rest;
        lemma_spans();
        lemma_number_comes_back(self@.len(), 8, body);
        assert(self.wire() + rest =~= be_bytes(self@.len(), 8) + body);
        lemma_items_come_back(self@, rest);
    }
}

impl<T: RoundTrip> RoundTrip for Option<T> {
    proof fn round_trip(&self, rest: Seq<u8>) {
        match self {
            None => {
                assert((self.wire() + rest).skip(1) =~= rest);
            },
            Some(a) => {
                a.round_trip(rest);
                assert((self.wire() + rest).skip(1) =~= a.wire() + rest);
            },
        }
    }
}

impl<T: RoundTrip, E: RoundTrip> RoundTrip for Result<T, E> {
    proof fn round_trip(&self, rest: Seq<u8>) {
        match self {
            Ok(a) => {
                a.round_trip(rest);
                assert((self.wire() + rest).skip(1) =~= a.wire() + rest);
            },
            Err(a) => {
                a.round_trip(rest);
                assert((self.wire() + rest).skip(1) =~= a.wire() + rest);
            },
        }
    }
}

impl<A: RoundTrip, B: RoundTrip> RoundTrip for (A, B) {
    proof fn round_trip(&self, rest: Seq<u8>) {
        self.0.round_trip(self.1.wire() + rest);
        self.1.round_trip(rest);
        assert(self.wire() + rest =~= self.0.wire() + (self.1.wire() + rest));
    }
}

} // verus!
