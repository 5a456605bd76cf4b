//! Types that travel both ways.

use crate::deserialize::Deserialize;
use crate::serialize::Serialize;
use crate::stream::{ByteSink, ByteSource};
use crate::SlimError;
use std::borrow::Cow;
use vstd::prelude::*;

verus! {

/// A type whose values can be written to and read from one stream of type
/// `S`. The trait adds nothing to the two that it joins.
pub trait Transportable<S>: Serialize<S> + Deserialize<S> {
}

impl<S: ByteSource + ByteSink> Transportable<S> for () {
}

impl<S: ByteSource + ByteSink> Transportable<S> for u64 {
}

impl<S: ByteSource + ByteSink> Transportable<S> for u32 {
}

impl<S: ByteSource + ByteSink> Transportable<S> for u16 {
}

impl<S: ByteSource + ByteSink> Transportable<S> for u8 {
}

impl<S: ByteSource + ByteSink> Transportable<S> for i64 {
}

impl<S: ByteSource + ByteSink> Transportable<S> for i32 {
}

impl<S: ByteSource + ByteSink> Transportable<S> for i16 {
}

impl<S: ByteSource + ByteSink> Transportable<S> for i8 {
}

impl<S: ByteSource + ByteSink> Transportable<S> for bool {
}

impl<S: ByteSource + ByteSink> Transportable<S> for String {
}

impl<S: ByteSource + ByteSink> Transportable<S> for SlimError {
}

impl<S: ByteSource + ByteSink, T: Transportable<S>, E: Transportable<S>> Transportable<
    S,
> for Result<T, E> {
}

impl<S: ByteSource + ByteSink, T: Transportable<S>> Transportable<S> for Option<T> {
}

impl<S: ByteSource + ByteSink, T: Transportable<S>> Transportable<S> for Vec<T> {
}

impl<'a, S: ByteSource + ByteSink, T: Transportable<S> + Clone> Transportable<S> for Cow<'a, T> {
}

impl<S: ByteSource + ByteSink, A: Transportable<S>, B: Transportable<S>> Transportable<
    S,
> for (A, B) {
}

} // verus!
