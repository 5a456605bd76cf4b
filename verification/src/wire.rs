//! The wire format: for each type, the bytes that stand for a value and the
//! reading of bytes as a value. Everything here is mathematics; the traits
//! `Serialize` and `Deserialize` carry it out on streams.

use crate::bigendian::{be_bytes, be_value, signed_value, twos_complement};
use crate::SlimError;
use std::borrow::Cow;
use vstd::prelude::*;
use vstd::utf8::{decode_utf8, encode_utf8, valid_utf8};

verus! {

/// What reading a value from bytes comes to: the value and the bytes after
/// it, or the failure.
pub type Parsed<M> = Result<(M, Seq<u8>), SlimError>;

/// A type with a wire format.
pub trait Wire {
    /// What a value of the type is, as mathematics.
    type Model;

    /// The value, as mathematics.
    spec fn model(&self) -> Self::Model;

    /// Whether the format can hold the value: every length and count in it
    /// is below 2^64.
    spec fn fits(&self) -> bool;

    /// The bytes that stand for the value.
    spec fn wire(&self) -> Seq<u8>;

    /// What decoding makes of a stream that hands over `input` and then
    /// ends.
    spec fn parse(input: Seq<u8>) -> Parsed<Self::Model>;
}

impl Wire for u8 {
    type Model = u8;

    open spec fn model(&self) -> u8 {
        *self
    }

    open spec fn fits(&self) -> bool {
        true
    }

    open spec fn wire(&self) -> Seq<u8> {
        seq![*self]
    }

    open spec fn parse(input: Seq<u8>) -> Parsed<u8> {
        if input.len() >= 1 {
            Ok((input[0], input.skip(1)))
        } else {
            Err(SlimError::StreamClosed)
        }
    }
}

impl Wire for i8 {
    type Model = i8;

    open spec fn model(&self) -> i8 {
        *self
    }

    open spec fn fits(&self) -> bool {
        true
    }

    open spec fn wire(&self) -> Seq<u8> {
        seq![twos_complement(*self as int, 1) as u8]
    }

    open spec fn parse(input: Seq<u8>) -> Parsed<i8> {
        if input.len() >= 1 {
            Ok((signed_value(input[0] as nat, 1) as i8, input.skip(1)))
        } else {
            Err(SlimError::StreamClosed)
        }
    }
}

impl Wire for bool {
    type Model = bool;

    open spec fn model(&self) -> bool {
        *self
    }

    open spec fn fits(&self) -> bool {
        true
    }

    /// One byte: 1 for `true`, 0 for `false`.
    open spec fn wire(&self) -> Seq<u8> {
        seq![if *self { 1u8 } else { 0u8 }]
    }

    /// Any byte but 0 reads as `true`.
    open spec fn parse(input: Seq<u8>) -> Parsed<bool> {
        if input.len() >= 1 {
            Ok((input[0] != 0, input.skip(1)))
        } else {
            Err(SlimError::StreamClosed)
        }
    }
}

impl Wire for () {
    type Model = ();

    open spec fn model(&self) -> () {
        ()
    }

    open spec fn fits(&self) -> bool {
        true
    }

    open spec fn wire(&self) -> Seq<u8> {
        Seq::empty()
    }

    open spec fn parse(input: Seq<u8>) -> Parsed<()> {
        Ok(((), input))
    }
}

impl Wire for u16 {
    type Model = u16;

    open spec fn model(&self) -> u16 {
        *self
    }

    open spec fn fits(&self) -> bool {
        true
    }

    open spec fn wire(&self) -> Seq<u8> {
        be_bytes(*self as nat, 2)
    }

    open spec fn parse(input: Seq<u8>) -> Parsed<u16> {
        if input.len() >= 2 {
            Ok((be_value(input.take(2)) as u16, input.skip(2)))
        } else {
            Err(SlimError::StreamClosed)
        }
    }
}

impl Wire for i16 {
    type Model = i16;

    open spec fn model(&self) -> i16 {
        *self
    }

    open spec fn fits(&self) -> bool {
        true
    }

    open spec fn wire(&self) -> Seq<u8> {
        be_bytes(twos_complement(*self as int, 2), 2)
    }

    open spec fn parse(input: Seq<u8>) -> Parsed<i16> {
        if input.len() >= 2 {
            Ok((signed_value(be_value(input.take(2)), 2) as i16, input.skip(2)))
        } else {
            Err(SlimError::StreamClosed)
        }
    }
}

impl Wire for u32 {
    type Model = u32;

    open spec fn model(&self) -> u32 {
        *self
    }

    open spec fn fits(&self) -> bool {
        true
    }

    open spec fn wire(&self) -> Seq<u8> {
        be_bytes(*self as nat, 4)
    }

    open spec fn parse(input: Seq<u8>) -> Parsed<u32> {
        if input.len() >= 4 {
            Ok((be_value(input.take(4)) as u32, input.skip(4)))
        } else {
            Err(SlimError::StreamClosed)
        }
    }
}

impl Wire for i32 {
    type Model = i32;

    open spec fn model(&self) -> i32 {
        *self
    }

    open spec fn fits(&self) -> bool {
        true
    }

    open spec fn wire(&self) -> Seq<u8> {
        be_bytes(twos_complement(*self as int, 4), 4)
    }

    open spec fn parse(input: Seq<u8>) -> Parsed<i32> {
        if input.len() >= 4 {
            Ok((signed_value(be_value(input.take(4)), 4) as i32, input.skip(4)))
        } else {
            Err(SlimError::StreamClosed)
        }
    }
}

impl Wire for u64 {
    type Model = u64;

    open spec fn model(&self) -> u64 {
        *self
    }

    open spec fn fits(&self) -> bool {
        true
    }

    open spec fn wire(&self) -> Seq<u8> {
        be_bytes(*self as nat, 8)
    }

    open spec fn parse(input: Seq<u8>) -> Parsed<u64> {
        if input.len() >= 8 {
            Ok((be_value(input.take(8)) as u64, input.skip(8)))
        } else {
            Err(SlimError::StreamClosed)
        }
    }
}

impl Wire for i64 {
    type Model = i64;

    open spec fn model(&self) -> i64 {
        *self
    }

    open spec fn fits(&self) -> bool {
        true
    }

    open spec fn wire(&self) -> Seq<u8> {
        be_bytes(twos_complement(*self as int, 8), 8)
    }

    open spec fn parse(input: Seq<u8>) -> Parsed<i64> {
        if input.len() >= 8 {
            Ok((signed_value(be_value(input.take(8)), 8) as i64, input.skip(8)))
        } else {
            Err(SlimError::StreamClosed)
        }
    }
}

/// The byte that stands for an error on the wire.
pub open spec fn code_written(e: SlimError) -> u8 {
    match e {
        SlimError::DeserializationError => 0,
        SlimError::SerializationError => 1,
        SlimError::StreamClosed => 2,
        SlimError::StreamError => 3,
    }
}

/// The error that a byte read from the wire stands for, if any. The first
/// two codes are not those of `code_written`: a serialization error is read
/// back as a deserialization error, and the other way round.
pub open spec fn variant_read(code: u8) -> Option<SlimError> {
    if code == 0 {
        Some(SlimError::SerializationError)
    } else if code == 1 {
        Some(SlimError::DeserializationError)
    } else if code == 2 {
        Some(SlimError::StreamClosed)
    } else if code == 3 {
        Some(SlimError::StreamError)
    } else {
        None
    }
}

impl Wire for SlimError {
    type Model = SlimError;

    open spec fn model(&self) -> SlimError {
        *self
    }

    open spec fn fits(&self) -> bool {
        true
    }

    open spec fn wire(&self) -> Seq<u8> {
        seq![code_written(*self)]
    }

    open spec fn parse(input: Seq<u8>) -> Parsed<SlimError> {
        if input.len() < 1 {
            Err(SlimError::StreamClosed)
        } else {
            match variant_read(input[0]) {
                Some(e) => Ok((e, input.skip(1))),
                None => Err(SlimError::DeserializationError),
            }
        }
    }
}

/// The bytes that stand for a text: the length of its UTF-8 form in eight
/// bytes, then that form.
pub open spec fn text_wire(chars: Seq<char>) -> Seq<u8> {
    be_bytes(encode_utf8(chars).len(), 8) + encode_utf8(chars)
}

/// The reading of bytes as a text: eight bytes of length, then as many bytes
/// as they say, which must be UTF-8.
pub open spec fn parse_text(input: Seq<u8>) -> Parsed<Seq<char>> {
    if input.len() < 8 {
        Err(SlimError::StreamClosed)
    } else {
        let count = be_value(input.take(8)) as int;
        let rest = input.skip(8);
        if rest.len() < count {
            Err(SlimError::StreamClosed)
        } else if valid_utf8(rest.take(count)) {
            Ok((decode_utf8(rest.take(count)), rest.skip(count)))
        } else {
            Err(SlimError::DeserializationError)
        }
    }
}

/// Whether the length of a text's UTF-8 form can stand in eight bytes.
pub open spec fn text_fits(chars: Seq<char>) -> bool {
    encode_utf8(chars).len() <= u64::MAX
}

impl Wire for String {
    type Model = Seq<char>;

    open spec fn model(&self) -> Seq<char> {
        self@
    }

    open spec fn fits(&self) -> bool {
        text_fits(self@)
    }

    open spec fn wire(&self) -> Seq<u8> {
        text_wire(self@)
    }

    open spec fn parse(input: Seq<u8>) -> Parsed<Seq<char>> {
        parse_text(input)
    }
}

impl<'a> Wire for &'a str {
    type Model = Seq<char>;

    open spec fn model(&self) -> Seq<char> {
        self@
    }

    open spec fn fits(&self) -> bool {
        text_fits(self@)
    }

    open spec fn wire(&self) -> Seq<u8> {
        text_wire(self@)
    }

    open spec fn parse(input: Seq<u8>) -> Parsed<Seq<char>> {
        parse_text(input)
    }
}

/// The models of the items of a sequence, in order.
pub open spec fn models<T: Wire>(items: Seq<T>) -> Seq<T::Model> {
    Seq::new(items.len(), |i: int| items[i].model())
}

/// The bytes of the items of a sequence, one after the other.
pub open spec fn wire_of_all<T: Wire>(items: Seq<T>) -> Seq<u8>
    decreases items.len(),
{
    if items.len() == 0 {
        Seq::empty()
    } else {
        items.first().wire() + wire_of_all(items.drop_first())
    }
}

/// The reading of bytes as `count` items, one after the other. The first
/// item that fails to read fails the whole with its own error.
pub open spec fn parse_all<T: Wire>(input: Seq<u8>, count: nat) -> Parsed<Seq<T::Model>>
    decreases count,
{
    if count == 0 {
        Ok((Seq::empty(), input))
    } else {
        match T::parse(input) {
            Err(e) => Err(e),
            Ok((first, rest)) => match parse_all::<T>(rest, (count - 1) as nat) {
                Err(e) => Err(e),
                Ok((others, left)) => Ok((seq![first] + others, left)),
            },
        }
    }
}

/// The bytes of two sequences joined are the bytes of the one, then those
/// of the other.
pub proof fn lemma_wire_of_all_concat<T: Wire>(a: Seq<T>, b: Seq<T>)
    ensures
        wire_of_all(a + b) == wire_of_all(a) + wire_of_all(b),
    decreases a.len(),
{
    if a.len() == 0 {
        assert(a + b =~= b);
        assert(wire_of_all(a) + wire_of_all(b) =~= wire_of_all(b));
    } else {
        lemma_wire_of_all_concat(a.drop_first(), b);
        assert((a + b).drop_first() =~= a.drop_first() + b);
        assert((a + b).first() == a.first());
        assert(wire_of_all(a + b) =~= wire_of_all(a) + wire_of_all(b));
    }
}

/// The bytes of the first `k` items and of one more are the bytes of the
/// first `k + 1`.
pub proof fn lemma_wire_of_all_step<T: Wire>(items: Seq<T>, k: int)
    requires
        0 <= k < items.len(),
    ensures
        wire_of_all(items.take(k + 1)) == wire_of_all(items.take(k)) + items[k].wire(),
        wire_of_all(items.take(k + 1)).len() <= wire_of_all(items).len(),
{
    let one = seq![items[k]];
    assert(wire_of_all(one) =~= items[k].wire()) by {
        assert(one.drop_first() =~= Seq::<T>::empty());
        assert(wire_of_all(one.drop_first()) =~= Seq::<u8>::empty());
    }
    assert(items.take(k + 1) =~= items.take(k) + one);
    lemma_wire_of_all_concat(items.take(k), one);
    assert(items =~= items.take(k + 1) + items.skip(k + 1));
    lemma_wire_of_all_concat(items.take(k + 1), items.skip(k + 1));
}

/// The reading of `count` items, put after items that were read before.
pub open spec fn after<M>(before: Seq<M>, then: Parsed<Seq<M>>) -> Parsed<Seq<M>> {
    match then {
        Ok((others, left)) => Ok((before + others, left)),
        Err(e) => Err(e),
    }
}

impl<T: Wire> Wire for Vec<T> {
    type Model = Seq<T::Model>;

    open spec fn model(&self) -> Seq<T::Model> {
        models(self@)
    }

    open spec fn fits(&self) -> bool {
        &&& self@.len() <= u64::MAX
        &&& forall|i: int| 0 <= i < self@.len() ==> (#[trigger] self@[i]).fits()
    }

    /// The count of items in eight bytes, then the items.
    open spec fn wire(&self) -> Seq<u8> {
        be_bytes(self@.len(), 8) + wire_of_all(self@)
    }

    open spec fn parse(input: Seq<u8>) -> Parsed<Seq<T::Model>> {
        if input.len() < 8 {
            Err(SlimError::StreamClosed)
        } else {
            parse_all::<T>(input.skip(8), be_value(input.take(8)))
        }
    }
}

impl<T: Wire> Wire for Option<T> {
    type Model = Option<T::Model>;

    open spec fn model(&self) -> Option<T::Model> {
        match self {
            None => None,
            Some(a) => Some(a.model()),
        }
    }

    open spec fn fits(&self) -> bool {
        match self {
            None => true,
            Some(a) => a.fits(),
        }
    }

    /// The tag 0 alone where there is no value, else the tag 1 and the value.
    open spec fn wire(&self) -> Seq<u8> {
        match self {
            None => seq![0u8],
            Some(a) => seq![1u8] + a.wire(),
        }
    }

    /// A value that fails to read after its tag fails the whole as malformed,
    /// whatever its own error was.
    open spec fn parse(input: Seq<u8>) -> Parsed<Option<T::Model>> {
        if input.len() < 1 {
            Err(SlimError::StreamClosed)
        } else if input[0] == 0 {
            Ok((None, input.skip(1)))
        } else if input[0] == 1 {
            match T::parse(input.skip(1)) {
                Ok((a, rest)) => Ok((Some(a), rest)),
                Err(_) => Err(SlimError::DeserializationError),
            }
        } else {
            Err(SlimError::DeserializationError)
        }
    }
}

impl<T: Wire, E: Wire> Wire for Result<T, E> {
    type Model = Result<T::Model, E::Model>;

    open spec fn model(&self) -> Result<T::Model, E::Model> {
        match self {
            Ok(a) => Ok(a.model()),
            Err(a) => Err(a.model()),
        }
    }

    open spec fn fits(&self) -> bool {
        match self {
            Ok(a) => a.fits(),
            Err(a) => a.fits(),
        }
    }

    /// The tag 0 and the success, or the tag 1 and the failure.
    open spec fn wire(&self) -> Seq<u8> {
        match self {
            Ok(a) => seq![0u8] + a.wire(),
            Err(a) => seq![1u8] + a.wire(),
        }
    }

    /// An arm that fails to read after its tag fails the whole as malformed,
    /// whatever its own error was.
    open spec fn parse(input: Seq<u8>) -> Parsed<Result<T::Model, E::Model>> {
        if input.len() < 1 {
            Err(SlimError::StreamClosed)
        } else if input[0] == 0 {
            match T::parse(input.skip(1)) {
                Ok((a, rest)) => Ok((Ok(a), rest)),
                Err(_) => Err(SlimError::DeserializationError),
            }
        } else if input[0] == 1 {
            match E::parse(input.skip(1)) {
                Ok((a, rest)) => Ok((Err(a), rest)),
                Err(_) => Err(SlimError::DeserializationError),
            }
        } else {
            Err(SlimError::DeserializationError)
        }
    }
}

impl<A: Wire, B: Wire> Wire for (A, B) {
    type Model = (A::Model, B::Model);

    open spec fn model(&self) -> (A::Model, B::Model) {
        (self.0.model(), self.1.model())
    }

    open spec fn fits(&self) -> bool {
        self.0.fits() && self.1.fits()
    }

    /// The first, then the second, with nothing between them.
    open spec fn wire(&self) -> Seq<u8> {
        self.0.wire() + self.1.wire()
    }

    /// Either side that fails to read fails the pair as malformed, whatever
    /// its own error was.
    open spec fn parse(input: Seq<u8>) -> Parsed<(A::Model, B::Model)> {
        match A::parse(input) {
            Ok((a, rest)) => match B::parse(rest) {
                Ok((b, left)) => Ok(((a, b), left)),
                Err(_) => Err(SlimError::DeserializationError),
            },
            Err(_) => Err(SlimError::DeserializationError),
        }
    }
}

/// A value that is borrowed or owned is on the wire what the value is.
impl<'a, T: Wire + Clone> Wire for Cow<'a, T> {
    type Model = T::Model;

    open spec fn model(&self) -> T::Model {
        match self {
            Cow::Borrowed(a) => a.model(),
            Cow::Owned(a) => a.model(),
        }
    }

    open spec fn fits(&self) -> bool {
        match self {
            Cow::Borrowed(a) => a.fits(),
            Cow::Owned(a) => a.fits(),
        }
    }

    open spec fn wire(&self) -> Seq<u8> {
        match self {
            Cow::Borrowed(a) => a.wire(),
            Cow::Owned(a) => a.wire(),
        }
    }

    open spec fn parse(input: Seq<u8>) -> Parsed<T::Model> {
        T::parse(input)
    }
}

impl<'a> Wire for Cow<'a, str> {
    type Model = Seq<char>;

    open spec fn model(&self) -> Seq<char> {
        self@
    }

    open spec fn fits(&self) -> bool {
        text_fits(self@)
    }

    open spec fn wire(&self) -> Seq<u8> {
        text_wire(self@)
    }

    open spec fn parse(input: Seq<u8>) -> Parsed<Seq<char>> {
        parse_text(input)
    }
}

} // verus!
