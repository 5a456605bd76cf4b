//! Truncation: a stream that ends within a value is a closed stream.

use crate::bigendian::{be_bytes, lemma_be_bytes_len, lemma_spans, twos_complement};
use crate::round_trip::{lemma_number_comes_back, lemma_text_comes_back};
use crate::wire::{parse_all, parse_text, text_fits, text_wire, wire_of_all, Wire};
use crate::SlimError;
use std::borrow::Cow;
use vstd::prelude::*;
use vstd::utf8::encode_utf8;

verus! {

/// A type for which a stream that ends within the bytes of a value is read
/// as closed.
///
/// The numbers, `bool`, the unit, texts and `SlimError` are such types, and
/// so are sequences of such types. `Option`, `Result` and pairs are not: a
/// stream that ends within what follows a tag, or within a pair, is read as
/// malformed.
pub trait Truncation: Wire {
    /// The bytes of a value are read as a whole: what follows them on the
    /// stream is left.
    proof fn framed(&self, rest: Seq<u8>)
        requires
            self.fits(),
        ensures
            Self::parse(self.wire() + rest) is Ok,
            Self::parse(self.wire() + rest)->Ok_0.1 == rest,
    ;

    /// Reading the first `k` bytes of a value, where these are not all of
    /// them, fails with `StreamClosed`.
    proof fn truncated(&self, k: int)
        requires
            self.fits(),
        ensures
            0 <= k < self.wire().len() ==> Self::parse(self.wire().take(k)) == Err::<
                (Self::Model, Seq<u8>),
                SlimError,
            >(SlimError::StreamClosed),
    ;
}

/// A text cut short is read as a closed stream.
pub proof fn lemma_text_truncated(chars: Seq<char>, k: int)
    requires
        text_fits(chars),
        0 <= k < text_wire(chars).len(),
    ensures
        parse_text(text_wire(chars).take(k)) == Err::<(Seq<char>, Seq<u8>), SlimError>(
            SlimError::StreamClosed,
        ),
{
    let body = encode_utf8(chars);
    lemma_be_bytes_len(body.len(), 8);
    if k >= 8 {
        let tail = body.take(k - 8);
        lemma_spans();
        lemma_number_comes_back(body.len(), 8, tail);
        assert(text_wire(chars).take(k) =~= be_bytes(body.len(), 8) + tail);
    }
}

/// Items are read as a whole: what follows their bytes is left.
pub proof fn lemma_items_framed<T: Truncation>(items: Seq<T>, rest: Seq<u8>)
    requires
        forall|i: int| 0 <= i < items.len() ==> (#[trigger] items[i]).fits(),
    ensures
        parse_all::<T>(wire_of_all(items) + rest, items.len()) is Ok,
        parse_all::<T>(wire_of_all(items) + rest, items.len())->Ok_0.1 == rest,
    decreases items.len(),
{
    if items.len() == 0 {
        assert(wire_of_all(items) + rest =~= rest);
    } else {
        let first = items.first();
        let others = items.drop_first();
        let tail = wire_of_all(others) + rest;
        assert(first.fits());
        assert forall|i: int| 0 <= i < others.len() implies (#[trigger] others[i]).fits() by {
            assert(others[i] == items[i + 1]);
        }
        first.framed(tail);
        lemma_items_framed(others, rest);
        assert(wire_of_all(items) + rest =~= first.wire() + tail);
    }
}

/// Items cut short are read as a closed stream.
pub proof fn lemma_items_truncated<T: Truncation>(items: Seq<T>, k: int)
    requires
        forall|i: int| 0 <= i < items.len() ==> (#[trigger] items[i]).fits(),
        0 <= k < wire_of_all(items).len(),
    ensures
        parse_all::<T>(wire_of_all(items).take(k), items.len()) == Err::<
            (Seq<T::Model>, Seq<u8>),
            SlimError,
        >(SlimError::StreamClosed),
    decreases items.len(),
{
    let first = items.first();
    let others = items.drop_first();
    assert(first.fits());
    if k < first.wire().len() {
        first.truncated(k);
        assert(wire_of_all(items).take(k) =~= first.wire().take(k));
    } else {
        let tail = wire_of_all(others).take(k - first.wire().len());
        assert forall|i: int| 0 <= i < others.len() implies (#[trigger] others[i]).fits() by {
            assert(others[i] == items[i + 1]);
        }
        first.framed(tail);
        lemma_items_truncated(others, k - first.wire().len());
        assert(wire_of_all(items).take(k) =~= first.wire() + tail);
    }
}

impl Truncation for u8 {
    proof fn framed(&self, rest: Seq<u8>) {
        assert((self.wire() + rest).skip(1) =~= rest);
    }

    proof fn truncated(&self, k: int) {
    }
}

impl Truncation for i8 {
    proof fn framed(&self, rest: Seq<u8>) {
        assert((self.wire() + rest).skip(1) =~= rest);
    }

    proof fn truncated(&self, k: int) {
    }
}

impl Truncation for bool {
    proof fn framed(&self, rest: Seq<u8>) {
        assert((self.wire() + rest).skip(1) =~= rest);
    }

    proof fn truncated(&self, k: int) {
    }
}

impl Truncation for () {
    proof fn framed(&self, rest: Seq<u8>) {
        assert(self.wire() + rest =~= rest);
    }

    proof fn truncated(&self, k: int) {
    }
}

impl Truncation for SlimError {
    proof fn framed(&self, rest: Seq<u8>) {
        assert((self.wire() + rest).skip(1) =~= rest);
    }

    proof fn truncated(&self, k: int) {
    }
}

impl Truncation for u16 {
    proof fn framed(&self, rest: Seq<u8>) {
        lemma_spans();
        lemma_number_comes_back(*self as nat, 2, rest);
    }

    proof fn truncated(&self, k: int) {
        lemma_be_bytes_len(*self as nat, 2);
    }
}

impl Truncation for u32 {
    proof fn framed(&self, rest: Seq<u8>) {
        lemma_spans();
        lemma_number_comes_back(*self as nat, 4, rest);
    }

    proof fn truncated(&self, k: int) {
        lemma_be_bytes_len(*self as nat, 4);
    }
}

impl Truncation for u64 {
    proof fn framed(&self, rest: Seq<u8>) {
        lemma_spans();
        lemma_number_comes_back(*self as nat, 8, rest);
    }

    proof fn truncated(&self, k: int) {
        lemma_be_bytes_len(*self as nat, 8);
    }
}

impl Truncation for i16 {
    proof fn framed(&self, rest: Seq<u8>) {
        lemma_spans();
        lemma_number_comes_back(twos_complement(*self as int, 2), 2, rest);
    }

    proof fn truncated(&self, k: int) {
        lemma_be_bytes_len(twos_complement(*self as int, 2), 2);
    }
}

impl Truncation for i32 {
    proof fn framed(&self, rest: Seq<u8>) {
        lemma_spans();
        lemma_number_comes_back(twos_complement(*self as int, 4), 4, rest);
    }

    proof fn truncated(&self, k: int) {
        lemma_be_bytes_len(twos_complement(*self as int, 4), 4);
    }
}

impl Truncation for i64 {
    proof fn framed(&self, rest: Seq<u8>) {
        lemma_spans();
        lemma_number_comes_back(twos_complement(*self as int, 8), 8, rest);
    }

    proof fn truncated(&self, k: int) {
        lemma_be_bytes_len(twos_complement(*self as int, 8), 8);
    }
}

impl Truncation for String {
    proof fn framed(&self, rest: Seq<u8>) {
        lemma_text_comes_back(self@, rest);
    }

    proof fn truncated(&self, k: int) {
        if 0 <= k < self.wire().len() {
            lemma_text_truncated(self@, k);
        }
    }
}

impl<'a> Truncation for &'a str {
    proof fn framed(&self, rest: Seq<u8>) {
        lemma_text_comes_back(self@, rest);
    }

    proof fn truncated(&self, k: int) {
        if 0 <= k < self.wire().len() {
            lemma_text_truncated(self@, k);
        }
    }
}

impl<'a> Truncation for Cow<'a, str> {
    proof fn framed(&self, rest: Seq<u8>) {
        lemma_text_comes_back(self@, rest);
    }

    proof fn truncated(&self, k: int) {
        if 0 <= k < self.wire().len() {
            lemma_text_truncated(self@, k);
        }
    }
}

impl<'a, T: Truncation + Clone> Truncation for Cow<'a, T> {
    proof fn framed(&self, rest: Seq<u8>) {
        match self {
            Cow::Borrowed(a) => a.framed(rest),
            Cow::Owned(a) => a.framed(rest),
        }
    }

    proof fn truncated(&self, k: int) {
        match self {
            Cow::Borrowed(a) => a.truncated(k),
            Cow::Owned(a) => a.truncated(k),
        }
    }
}

impl<T: Truncation> Truncation for Vec<T> {
    proof fn framed(&self, rest: Seq<u8>) {
        let body = wire_of_all(self@) + rest;
        lemma_spans();
        lemma_number_comes_back(self@.len(), 8, body);
        assert(self.wire() + rest =~= be_bytes(self@.len(), 8) + body);
        lemma_items_framed(self@, rest);
    }

    proof fn truncated(&self, k: int) {
        lemma_be_bytes_len(self@.len(), 8);
        if 8 <= k < self.wire().len() {
            let tail = wire_of_all(self@).take(k - 8);
            lemma_spans();
            lemma_number_comes_back(self@.len(), 8, tail);
            assert(self.wire().take(k) =~= be_bytes(self@.len(), 8) + tail);
            lemma_items_truncated(self@, k - 8);
        }
    }
}

/// A stream that ends where the tag of an `Option` should stand is read as
/// closed.
pub proof fn lemma_option_without_tag<T: Wire>()
    ensures
        Option::<T>::parse(Seq::empty()) == Err::<(Option<T::Model>, Seq<u8>), SlimError>(
            SlimError::StreamClosed,
        ),
{
}

/// A stream that ends where the tag of a `Result` should stand is read as
/// closed.
pub proof fn lemma_result_without_tag<T: Wire, E: Wire>()
    ensures
        Result::<T, E>::parse(Seq::empty()) == Err::<
            (Result<T::Model, E::Model>, Seq<u8>),
            SlimError,
        >(SlimError::StreamClosed),
{
}

} // verus!
