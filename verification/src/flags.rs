//! File open flags.

use vstd::prelude::*;

verus! {

/// File open flags, as the bits of a `usize`.
#[derive(Clone, Copy, Debug, PartialEq, Eq, Structural)]
pub struct OpenFlags {
    bits: usize,
}

/// The bits of all the flags that are defined.
pub const ALL_OPEN_FLAGS_BITS: usize = 0x80ec3;

/// The bits of the flags that `set_flags` may change: append, non-block and
/// close-on-exec.
pub const STATUS_FLAGS_BITS: usize = 0x80c00;

impl OpenFlags {
    /// read only
    #[allow(non_snake_case)]
    pub fn RDONLY() -> (r: OpenFlags)
        ensures
            r.spec_bits() == 0,
            r.access_mode() == 0,
            r.spec_is_append() == false,
            r.spec_non_block() == false,
            r.spec_close_on_exec() == false,
    {
        let r = OpenFlags { bits: 0 };
        proof {
            Self::lemma_bit_facts(r.bits);
        }
        r
    }
    /// write only
    #[allow(non_snake_case)]
    pub fn WRONLY() -> (r: OpenFlags)
        ensures
            r.spec_bits() == 1,
            r.access_mode() == 1,
            r.spec_is_append() == false,
            r.spec_non_block() == false,
            r.spec_close_on_exec() == false,
    {
        let r = OpenFlags { bits: 1 };
        proof {
            Self::lemma_bit_facts(r.bits);
        }
        r
    }
    /// read write
    #[allow(non_snake_case)]
    pub fn RDWR() -> (r: OpenFlags)
        ensures
            r.spec_bits() == 2,
            r.access_mode() == 2,
            r.spec_is_append() == false,
            r.spec_non_block() == false,
            r.spec_close_on_exec() == false,
    {
        let r = OpenFlags { bits: 2 };
        proof {
            Self::lemma_bit_facts(r.bits);
        }
        r
    }
    /// create file if it does not exist
    #[allow(non_snake_case)]
    pub fn CREATE() -> (r: OpenFlags)
        ensures
            r.spec_bits() == 0x40,
            r.access_mode() == 0,
            r.spec_is_append() == false,
            r.spec_non_block() == false,
            r.spec_close_on_exec() == false,
    {
        let r = OpenFlags { bits: 0x40 };
        proof {
            Self::lemma_bit_facts(r.bits);
        }
        r
    }
    /// error if CREATE and the file exists
    #[allow(non_snake_case)]
    pub fn EXCLUSIVE() -> (r: OpenFlags)
        ensures
            r.spec_bits() == 0x80,
            r.access_mode() == 0,
            r.spec_is_append() == false,
            r.spec_non_block() == false,
            r.spec_close_on_exec() == false,
    {
        let r = OpenFlags { bits: 0x80 };
        proof {
            Self::lemma_bit_facts(r.bits);
        }
        r
    }
    /// truncate file upon open
    #[allow(non_snake_case)]
    pub fn TRUNCATE() -> (r: OpenFlags)
        ensures
            r.spec_bits() == 0x200,
            r.access_mode() == 0,
            r.spec_is_append() == false,
            r.spec_non_block() == false,
            r.spec_close_on_exec() == false,
    {
        let r = OpenFlags { bits: 0x200 };
        proof {
            Self::lemma_bit_facts(r.bits);
        }
        r
    }
    /// append on each write
    #[allow(non_snake_case)]
    pub fn APPEND() -> (r: OpenFlags)
        ensures
            r.spec_bits() == 0x400,
            r.access_mode() == 0,
            r.spec_is_append() == true,
            r.spec_non_block() == false,
            r.spec_close_on_exec() == false,
    {
        let r = OpenFlags { bits: 0x400 };
        proof {
            Self::lemma_bit_facts(r.bits);
        }
        r
    }
    /// non block open
    #[allow(non_snake_case)]
    pub fn NON_BLOCK() -> (r: OpenFlags)
        ensures
            r.spec_bits() == 0x800,
            r.access_mode() == 0,
            r.spec_is_append() == false,
            r.spec_non_block() == true,
            r.spec_close_on_exec() == false,
    {
        let r = OpenFlags { bits: 0x800 };
        proof {
            Self::lemma_bit_facts(r.bits);
        }
        r
    }
    /// close on exec
    #[allow(non_snake_case)]
    pub fn CLOEXEC() -> (r: OpenFlags)
        ensures
            r.spec_bits() == 0x80000,
            r.access_mode() == 0,
            r.spec_is_append() == false,
            r.spec_non_block() == false,
            r.spec_close_on_exec() == true,
    {
        let r = OpenFlags { bits: 0x80000 };
        proof {
            Self::lemma_bit_facts(r.bits);
        }
        r
    }

    /// The bits of the flags.
    pub closed spec fn spec_bits(&self) -> usize {
        self.bits
    }

    /// The bits of the flags.
    pub fn bits(&self) -> (r: usize)
        ensures
            r == self.spec_bits(),
    {
        self.bits
    }

    /// The flags of `bits`, with the bits of no defined flag dropped.
    pub fn from_bits_truncate(bits: usize) -> (r: OpenFlags)
        ensures
            r.spec_bits() == bits & ALL_OPEN_FLAGS_BITS,
    {
        OpenFlags { bits: bits & ALL_OPEN_FLAGS_BITS }
    }

    /// The flags of `bits`; `None` where `bits` holds a bit of no defined
    /// flag.
    pub fn from_bits(bits: usize) -> (r: Option<OpenFlags>)
        ensures
            match r {
                Some(f) => f.spec_bits() == bits && bits & ALL_OPEN_FLAGS_BITS == bits,
                None => bits & ALL_OPEN_FLAGS_BITS != bits,
            },
    {
        if bits & ALL_OPEN_FLAGS_BITS == bits {
            Some(OpenFlags { bits })
        } else {
            None
        }
    }

    /// No flag.
    pub fn empty() -> (r: OpenFlags)
        ensures
            r.spec_bits() == 0,
    {
        OpenFlags { bits: 0 }
    }

    /// Every defined flag.
    pub fn all() -> (r: OpenFlags)
        ensures
            r.spec_bits() == ALL_OPEN_FLAGS_BITS,
    {
        OpenFlags { bits: ALL_OPEN_FLAGS_BITS }
    }

    /// Whether every bit of `other` is set.
    pub open spec fn spec_contains(&self, other: OpenFlags) -> bool {
        self.spec_bits() & other.spec_bits() == other.spec_bits()
    }

    /// Whether every bit of `other` is set.
    pub fn contains(&self, other: OpenFlags) -> (r: bool)
        ensures
            r == self.spec_contains(other),
    {
        self.bits & other.bits == other.bits
    }

    /// Sets the bits of `other`.
    pub fn insert(&mut self, other: OpenFlags)
        ensures
            final(self).spec_bits() == old(self).spec_bits() | other.spec_bits(),
    {
        self.bits = self.bits | other.bits;
    }

    /// Clears the bits of `other`.
    pub fn remove(&mut self, other: OpenFlags)
        ensures
            final(self).spec_bits() == old(self).spec_bits() & !other.spec_bits(),
    {
        self.bits = self.bits & !other.bits;
    }

    /// Sets the bits of `other` where `value` holds, clears them otherwise.
    pub fn set(&mut self, other: OpenFlags, value: bool)
        ensures
            value ==> final(self).spec_bits() == old(self).spec_bits() | other.spec_bits(),
            !value ==> final(self).spec_bits() == old(self).spec_bits() & !other.spec_bits(),
    {
        if value {
            self.insert(other);
        } else {
            self.remove(other);
        }
    }

    /// The access mode: the two lowest bits.
    pub open spec fn access_mode(&self) -> usize {
        self.spec_bits() & 3
    }

    /// Whether the append flag is set.
    pub open spec fn spec_is_append(&self) -> bool {
        self.spec_bits() & 0x400 == 0x400
    }

    /// Whether the non-block flag is set.
    pub open spec fn spec_non_block(&self) -> bool {
        self.spec_bits() & 0x800 == 0x800
    }

    /// Whether the close-on-exec flag is set.
    pub open spec fn spec_close_on_exec(&self) -> bool {
        self.spec_bits() & 0x80000 == 0x80000
    }

    /// The access mode and the status flags of each defined flag's bits.
    proof fn lemma_bit_facts(b: usize)
        requires
            b == 0 || b == 1 || b == 2 || b == 0x40 || b == 0x80 || b == 0x200 || b == 0x400
                || b == 0x800 || b == 0x80000,
        ensures
            b & 3 == (if b < 3 { b } else { 0 }),
            (b & 0x400 == 0x400) == (b == 0x400),
            (b & 0x800 == 0x800) == (b == 0x800),
            (b & 0x80000 == 0x80000) == (b == 0x80000),
    {
        assert(b & 3 == (if b < 3 { b } else { 0 }) && (b & 0x400 == 0x400) == (b == 0x400) && (b
            & 0x800 == 0x800) == (b == 0x800) && (b & 0x80000 == 0x80000) == (b == 0x80000))
            by (bit_vector)
            requires
                b == 0 || b == 1 || b == 2 || b == 0x40 || b == 0x80 || b == 0x200 || b == 0x400
                    || b == 0x800 || b == 0x80000,
        ;
    }

    /// Whether the file may be read: the access mode is read-only or
    /// read-write.
    pub fn readable(self) -> (r: bool)
        ensures
            r == (self.access_mode() == 0 || self.access_mode() == 2),
    {
        let b: usize = self.bits() & 0b11;
        b == Self::RDONLY().bits() || b == Self::RDWR().bits()
    }

    /// Whether the file may be written: the access mode is write-only or
    /// read-write.
    pub fn writable(self) -> (r: bool)
        ensures
            r == (self.access_mode() == 1 || self.access_mode() == 2),
    {
        let b: usize = self.bits() & 0b11;
        b == Self::WRONLY().bits() || b == Self::RDWR().bits()
    }

    /// Whether each write appends.
    pub fn is_append(self) -> (r: bool)
        ensures
            r == self.spec_is_append(),
    {
        self.contains(Self::APPEND())
    }

    /// Whether the file was opened non-blocking.
    pub fn non_block(self) -> (r: bool)
        ensures
            r == self.spec_non_block(),
    {
        self.contains(Self::NON_BLOCK())
    }

    /// Whether the file is closed on exec.
    pub fn close_on_exec(self) -> (r: bool)
        ensures
            r == self.spec_close_on_exec(),
    {
        self.contains(Self::CLOEXEC())
    }
}

/// `contains` holds exactly when every flag of `other` is set in `self`:
/// when adding `other`'s flags to `self` changes nothing. A set without
/// every flag of `other` does not contain it, though it may share some.
pub proof fn lemma_contains_is_every_flag(f: OpenFlags, g: OpenFlags)
    ensures
        f.spec_contains(g) <==> (f.spec_bits() | g.spec_bits()) == f.spec_bits(),
        g.spec_bits() == 0 ==> f.spec_contains(g),
        f.spec_contains(g) && g.spec_bits() != 0 ==> f.spec_bits() & g.spec_bits() != 0,
{
    let a: usize = f.spec_bits();
    let b: usize = g.spec_bits();
    assert(((a & b) == b) <==> ((a | b) == a)) by (bit_vector);
    assert(b == 0 ==> (a & b) == b) by (bit_vector);
    assert((a & b) == b && b != 0 ==> a & b != 0) by (bit_vector);
}

/// The access mode is the number in the two lowest bits, and the append,
/// non-block and close-on-exec flags are bits 10, 11 and 19.
pub proof fn lemma_flag_bits(f: OpenFlags)
    ensures
        f.access_mode() == f.spec_bits() % 4,
        f.spec_is_append() <==> (f.spec_bits() >> 10) & 1 == 1,
        f.spec_non_block() <==> (f.spec_bits() >> 11) & 1 == 1,
        f.spec_close_on_exec() <==> (f.spec_bits() >> 19) & 1 == 1,
{
    let b: usize = f.spec_bits();
    assert(b & 3 == b % 4) by (bit_vector);
    assert((b & 0x400 == 0x400) <==> (b >> 10) & 1 == 1) by (bit_vector);
    assert((b & 0x800 == 0x800) <==> (b >> 11) & 1 == 1) by (bit_vector);
    assert((b & 0x80000 == 0x80000) <==> (b >> 19) & 1 == 1) by (bit_vector);
}

} // verus!
