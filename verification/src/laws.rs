//! What the wire format owes on the inputs that need naming: tags that are
//! none, bytes that are no text, lengths of zero, bytes for `bool`, and the
//! codes of errors.

use crate::bigendian::{be_bytes, be_value, lemma_spans};
use crate::round_trip::lemma_number_comes_back;
use crate::wire::{parse_text, Wire};
use crate::SlimError;
use vstd::prelude::*;
use vstd::utf8::valid_utf8;

verus! {

/// An `Option` whose tag is neither 0 nor 1 is malformed, whatever follows
/// the tag.
pub proof fn lemma_option_tag_outside<T: Wire>(input: Seq<u8>)
    requires
        input.len() >= 1,
        input[0] != 0,
        input[0] != 1,
    ensures
        Option::<T>::parse(input) == Err::<(Option<T::Model>, Seq<u8>), SlimError>(
            SlimError::DeserializationError,
        ),
{
}

/// A `Result` whose tag is neither 0 nor 1 is malformed, whatever follows
/// the tag.
pub proof fn lemma_result_tag_outside<T: Wire, E: Wire>(input: Seq<u8>)
    requires
        input.len() >= 1,
        input[0] != 0,
        input[0] != 1,
    ensures
        Result::<T, E>::parse(input) == Err::<(Result<T::Model, E::Model>, Seq<u8>), SlimError>(
            SlimError::DeserializationError,
        ),
{
}

/// A text whose bytes are all there, as many as its length says, but are
/// not UTF-8, is malformed.
pub proof fn lemma_text_not_utf8(input: Seq<u8>)
    requires
        input.len() >= 8,
        input.len() - 8 >= be_value(input.take(8)),
        !valid_utf8(input.skip(8).take(be_value(input.take(8)) as int)),
    ensures
        parse_text(input) == Err::<(Seq<char>, Seq<u8>), SlimError>(
            SlimError::DeserializationError,
        ),
{
}

/// A count of zero is read as the empty sequence, and nothing after the
/// count is touched.
pub proof fn lemma_empty_sequence<T: Wire>(rest: Seq<u8>)
    ensures
        Vec::<T>::parse(be_bytes(0, 8) + rest) == Ok::<(Seq<T::Model>, Seq<u8>), SlimError>(
            (Seq::empty(), rest),
        ),
{
    lemma_spans();
    lemma_number_comes_back(0, 8, rest);
}

/// A length of zero is read as the empty text, and nothing after the length
/// is touched.
pub proof fn lemma_empty_text(rest: Seq<u8>)
    ensures
        parse_text(be_bytes(0, 8) + rest) == Ok::<(Seq<char>, Seq<u8>), SlimError>(
            (Seq::empty(), rest),
        ),
{
    lemma_spans();
    lemma_number_comes_back(0, 8, rest);
    assert(rest.take(0) =~= Seq::<u8>::empty());
    assert(rest.skip(0) =~= rest);
}

/// `false` is written as the byte 0 and `true` as the byte 1.
pub proof fn lemma_bool_bytes(b: bool)
    ensures
        !b ==> b.wire() == seq![0u8],
        b ==> b.wire() == seq![1u8],
{
}

/// Every byte but 0 is read as `true`; the byte 0 is read as `false`.
pub proof fn lemma_bool_of_byte(byte: u8, rest: Seq<u8>)
    ensures
        bool::parse(seq![byte] + rest) == Ok::<(bool, Seq<u8>), SlimError>((byte != 0, rest)),
{
    assert((seq![byte] + rest).skip(1) =~= rest);
}

/// What an error is once it was written and read again: the two codes that
/// the directions disagree on change places.
pub open spec fn read_back(e: SlimError) -> SlimError {
    match e {
        SlimError::SerializationError => SlimError::DeserializationError,
        SlimError::DeserializationError => SlimError::SerializationError,
        SlimError::StreamClosed => SlimError::StreamClosed,
        SlimError::StreamError => SlimError::StreamError,
    }
}

/// An error that is written and read again comes back as `read_back` says:
/// a serialization error as a deserialization error, and the other way
/// round.
pub proof fn lemma_error_read_back(e: SlimError, rest: Seq<u8>)
    ensures
        SlimError::parse(e.wire() + rest) == Ok::<(SlimError, Seq<u8>), SlimError>(
            (read_back(e), rest),
        ),
{
    assert((e.wire() + rest).skip(1) =~= rest);
}

} // verus!
