//! Cache-line alignment helpers.

use vstd::prelude::*;

verus! {

/// The size of a cache line, in bytes.
pub const CACHE_LINE_SIZE: usize = 64;

/// A value that the kernel places on a cache line of its own.
///
/// The placement itself is a matter of memory layout; the offsets that the
/// shared ring buffers derive from it are the constants of `asynccall`.
#[derive(Debug)]
pub struct AlignCacheLine<T>(T);

impl<T> AlignCacheLine<T> {
    /// The value held.
    pub closed spec fn inner(&self) -> T {
        self.0
    }

    /// Wraps `t`.
    pub fn new(t: T) -> (r: Self)
        ensures
            r.inner() == t,
    {
        AlignCacheLine(t)
    }

    /// A shared reference to the value held.
    pub fn as_ref(&self) -> (r: &T)
        ensures
            *r == self.inner(),
    {
        &self.0
    }

    /// A mutable reference to the value held.
    pub fn as_mut(&mut self) -> (r: &mut T)
        ensures
            *r == old(self).inner(),
            final(self).inner() == *final(r),
    {
        &mut self.0
    }
}

impl<T: Copy> AlignCacheLine<T> {
    /// A copy of the value held.
    pub fn get(&self) -> (r: T)
        ensures
            r == self.inner(),
    {
        self.0
    }
}

impl<T> core::ops::Deref for AlignCacheLine<T> {
    type Target = T;

    fn deref(&self) -> (r: &T)
        ensures
            *r == self.inner(),
    {
        &self.0
    }
}

impl<T> core::convert::From<T> for AlignCacheLine<T> {
    fn from(t: T) -> (r: Self)
        ensures
            r.inner() == t,
    {
        AlignCacheLine(t)
    }
}

impl<T> vstd::std_specs::convert::FromSpecImpl<T> for AlignCacheLine<T> {
    open spec fn obeys_from_spec() -> bool {
        true
    }

    closed spec fn from_spec(v: T) -> Self {
        AlignCacheLine(v)
    }
}

/// Whether `x` is a multiple of `align`.
pub fn check_aligned(x: usize, align: usize) -> (r: bool)
    requires
        align > 0,
    ensures
        r == (x % align == 0),
{
    x % align == 0
}

/// Whether `x` is a multiple of `CACHE_LINE_SIZE`.
pub fn cache_aligned(x: usize) -> (r: bool)
    ensures
        r == (x % 64 == 0),
{
    check_aligned(x, CACHE_LINE_SIZE)
}

/// The smallest multiple of 64 that is at least `size`, written as the
/// integer it is.
pub open spec fn spec_roundup_cache(size: int) -> int {
    ((size + 63) / 64) * 64
}

/// Round up `size` to a multiple of `CACHE_LINE_SIZE`.
pub fn roundup_cache(size: usize) -> (r: usize)
    requires
        size + 63 <= usize::MAX,
    ensures
        r == spec_roundup_cache(size as int),
        r % 64 == 0,
        size <= r < size + 64,
{
    let s: usize = size + (CACHE_LINE_SIZE - 1);
    let r: usize = s & !(CACHE_LINE_SIZE - 1);
    assert(s & !63usize == s - s % 64) by (bit_vector);
    r
}

} // verus!
