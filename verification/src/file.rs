//! The state of an open file: its offset and its open flags.
//!
//! The file's contents live behind an inode, which the callers reach; this
//! module decides whether an operation is allowed, where it lands, and how
//! the offset moves once the inode has answered.

use crate::error::{LxError, LxResult};
use crate::flags::{OpenFlags, STATUS_FLAGS_BITS};
use vstd::prelude::*;

verus! {

/// file seek type
#[derive(Clone, Copy, Debug)]
pub enum SeekFrom {
    /// seek from start point
    Start(u64),
    /// seek from end
    End(i64),
    /// seek from current
    Current(i64),
}

/// The offset that a seek moves to, from `offset` in a file of `file_size`
/// bytes: a sum taken as an `i64` and read back as a `u64`.
pub open spec fn spec_seek_target(pos: SeekFrom, offset: u64, file_size: usize) -> u64 {
    match pos {
        SeekFrom::Start(o) => o,
        SeekFrom::End(o) => ((file_size as i64) + o) as i64 as u64,
        SeekFrom::Current(o) => ((offset as i64) + o) as i64 as u64,
    }
}

/// Whether the sum that a seek computes fits in an `i64`.
pub open spec fn seek_in_range(pos: SeekFrom, offset: u64, file_size: usize) -> bool {
    match pos {
        SeekFrom::Start(_) => true,
        SeekFrom::End(o) => i64::MIN <= (file_size as i64) + o <= i64::MAX,
        SeekFrom::Current(o) => i64::MIN <= (offset as i64) + o <= i64::MAX,
    }
}

/// The type of the file behind an inode.
#[derive(Clone, Copy, Debug, PartialEq, Eq, Structural)]
pub enum FileKind {
    File,
    Dir,
    SymLink,
    CharDevice,
    BlockDevice,
    NamedPipe,
    Socket,
}

/// How the memory object that maps a file is made.
#[derive(Clone, Copy, Debug, PartialEq, Eq, Structural)]
pub enum VmoPlan {
    /// Read the file's bytes into a new paged memory object.
    ReadIntoPaged,
    /// Hand out the frame buffer's own memory object.
    FrameBuffer,
}

/// How `get_vmo` gets the memory object of a file of `kind`, where
/// `is_frame_buffer` says whether a character device is the frame buffer:
/// a regular file is read into a new paged object, the frame buffer gives
/// its own, and every other file is `ENOSYS`.
pub fn get_vmo_plan(kind: FileKind, is_frame_buffer: bool) -> (r: LxResult<VmoPlan>)
    ensures
        r == match kind {
            FileKind::File => Ok(VmoPlan::ReadIntoPaged),
            FileKind::CharDevice => if is_frame_buffer {
                Ok(VmoPlan::FrameBuffer)
            } else {
                Err(LxError::ENOSYS)
            },
            _ => Err(LxError::ENOSYS),
        },
{
    match kind {
        FileKind::File => Ok(VmoPlan::ReadIntoPaged),
        FileKind::CharDevice => {
            if is_frame_buffer {
                Ok(VmoPlan::FrameBuffer)
            } else {
                Err(LxError::ENOSYS)
            }
        },
        _ => Err(LxError::ENOSYS),
    }
}

/// The offset and open flags of an open file.
#[derive(Clone, Copy, Debug)]
pub struct FileInner {
    offset: u64,
    flags: OpenFlags,
}

impl FileInner {
    /// The offset at which the next read or write starts.
    pub closed spec fn spec_offset(&self) -> u64 {
        self.offset
    }

    /// The open flags.
    pub closed spec fn spec_flags(&self) -> OpenFlags {
        self.flags
    }

    /// Whether the flags allow reading.
    pub open spec fn spec_readable(&self) -> bool {
        self.spec_flags().access_mode() == 0 || self.spec_flags().access_mode() == 2
    }

    /// Whether the flags allow writing.
    pub open spec fn spec_writable(&self) -> bool {
        self.spec_flags().access_mode() == 1 || self.spec_flags().access_mode() == 2
    }

    /// A file just opened with `flags`, at offset zero.
    pub fn new(flags: OpenFlags) -> (r: Self)
        ensures
            r.spec_offset() == 0,
            r.spec_flags() == flags,
    {
        FileInner { offset: 0, flags }
    }

    /// The offset at which the next read or write starts.
    pub fn offset(&self) -> (r: u64)
        ensures
            r == self.spec_offset(),
    {
        self.offset
    }

    /// The open flags.
    pub fn flags(&self) -> (r: OpenFlags)
        ensures
            r == self.spec_flags(),
    {
        self.flags
    }

    /// Moves the offset as `pos` says, in a file of `file_size` bytes (read
    /// only for `SeekFrom::End`), and returns the new offset.
    pub fn seek(&mut self, pos: SeekFrom, file_size: usize) -> (r: u64)
        requires
            seek_in_range(pos, old(self).spec_offset(), file_size),
        ensures
            r == spec_seek_target(pos, old(self).spec_offset(), file_size),
            final(self).spec_offset() == r,
            final(self).spec_flags() == old(self).spec_flags(),
    {
        self.offset = match pos {
            SeekFrom::Start(offset) => offset,
            SeekFrom::End(offset) => (file_size as i64 + offset) as u64,
            SeekFrom::Current(offset) => (self.offset as i64 + offset) as u64,
        };
        self.offset
    }

    /// `EBADF` where the flags do not allow reading.
    pub fn check_readable(&self) -> (r: LxResult<()>)
        ensures
            r is Ok <==> self.spec_readable(),
            r matches Err(e) ==> e == LxError::EBADF,
    {
        if !self.flags.readable() {
            return Err(LxError::EBADF);
        }
        Ok(())
    }

    /// `EBADF` where the flags do not allow writing.
    pub fn check_writable(&self) -> (r: LxResult<()>)
        ensures
            r is Ok <==> self.spec_writable(),
            r matches Err(e) ==> e == LxError::EBADF,
    {
        if !self.flags.writable() {
            return Err(LxError::EBADF);
        }
        Ok(())
    }

    /// Whether a read may go to the inode: `EBADF` where the flags do not
    /// allow reading. Non-blocking reads are not supported.
    pub fn check_read_at(&self) -> (r: LxResult<()>)
        requires
            self.spec_readable() ==> !self.spec_flags().spec_non_block(),
        ensures
            r is Ok <==> self.spec_readable(),
            r matches Err(e) ==> e == LxError::EBADF,
    {
        self.check_readable()
    }

    /// A read at the offset has read `len` bytes: the offset moves past
    /// them.
    pub fn read_done(&mut self, len: usize)
        requires
            old(self).spec_offset() + len <= u64::MAX,
        ensures
            final(self).spec_offset() == old(self).spec_offset() + len,
            final(self).spec_flags() == old(self).spec_flags(),
    {
        self.offset = self.offset + len as u64;
    }

    /// Where a write lands in a file of `file_size` bytes: at the end where
    /// the file appends, at the offset otherwise.
    pub fn write_offset(&self, file_size: usize) -> (r: u64)
        ensures
            r == (if self.spec_flags().spec_is_append() {
                file_size as u64
            } else {
                self.spec_offset()
            }),
    {
        if self.flags.is_append() {
            file_size as u64
        } else {
            self.offset
        }
    }

    /// A write at `offset` has written `len` bytes: the offset moves past
    /// them.
    pub fn write_done(&mut self, offset: u64, len: usize)
        requires
            offset + len <= u64::MAX,
        ensures
            final(self).spec_offset() == offset + len,
            final(self).spec_flags() == old(self).spec_flags(),
    {
        self.offset = offset + len as u64;
    }

    /// A directory entry has been read at the offset: the offset moves to
    /// the next entry.
    pub fn read_entry_done(&mut self)
        requires
            old(self).spec_offset() < u64::MAX,
        ensures
            final(self).spec_offset() == old(self).spec_offset() + 1,
            final(self).spec_flags() == old(self).spec_flags(),
    {
        self.offset = self.offset + 1;
    }

    /// Takes the append, non-block and close-on-exec flags from `f`; the
    /// other flags stay.
    pub fn set_flags(&mut self, f: OpenFlags)
        ensures
            final(self).spec_flags().spec_bits() == (old(self).spec_flags().spec_bits()
                & !STATUS_FLAGS_BITS) | (f.spec_bits() & STATUS_FLAGS_BITS),
            final(self).spec_offset() == old(self).spec_offset(),
    {
        let ghost b0: usize = self.flags.spec_bits();
        let ghost fb: usize = f.spec_bits();
        self.flags.set(OpenFlags::APPEND(), f.contains(OpenFlags::APPEND()));
        let ghost b1: usize = self.flags.spec_bits();
        self.flags.set(OpenFlags::NON_BLOCK(), f.contains(OpenFlags::NON_BLOCK()));
        let ghost b2: usize = self.flags.spec_bits();
        self.flags.set(OpenFlags::CLOEXEC(), f.contains(OpenFlags::CLOEXEC()));
        let ghost b3: usize = self.flags.spec_bits();
        assert(b3 == (b0 & !0x80c00usize) | (fb & 0x80c00usize)) by (bit_vector)
            requires
                (if fb & 0x400 == 0x400 { b1 == b0 | 0x400 } else { b1 == b0 & !0x400usize }),
                (if fb & 0x800 == 0x800 { b2 == b1 | 0x800 } else { b2 == b1 & !0x800usize }),
                (if fb & 0x80000 == 0x80000 { b3 == b2 | 0x80000 } else { b3 == b2 & !0x80000usize }),
        ;
    }
}

/// Changing the status flags never changes the access mode.
pub proof fn lemma_set_flags_keeps_access_mode(old_bits: usize, f_bits: usize)
    ensures
        ((old_bits & !STATUS_FLAGS_BITS) | (f_bits & STATUS_FLAGS_BITS)) & 3 == old_bits & 3,
        ((old_bits & !STATUS_FLAGS_BITS) | (f_bits & STATUS_FLAGS_BITS)) & STATUS_FLAGS_BITS
            == f_bits & STATUS_FLAGS_BITS,
{
    assert(((old_bits & !0x80c00usize) | (f_bits & 0x80c00usize)) & 3 == old_bits & 3)
        by (bit_vector);
    assert(((old_bits & !0x80c00usize) | (f_bits & 0x80c00usize)) & 0x80c00usize == f_bits
        & 0x80c00usize) by (bit_vector);
}

/// A seek from the start moves to the position given, whatever the offset
/// and the file's size were: the new offset does not depend on the old one.
pub proof fn lemma_seek_start_is_absolute(o: u64, offset1: u64, offset2: u64, size1: usize, size2: usize)
    ensures
        spec_seek_target(SeekFrom::Start(o), offset1, size1) == o,
        spec_seek_target(SeekFrom::Start(o), offset1, size1) == spec_seek_target(
            SeekFrom::Start(o),
            offset2,
            size2,
        ),
{
}

/// A seek from the end moves `o` bytes past the end of a file of `size`
/// bytes, and a seek from the current offset moves `o` bytes past it; a
/// target before the start wraps round to the top of the `u64` range.
pub proof fn lemma_seek_relative(o: i64, offset: u64, size: usize)
    ensures
        offset <= i64::MAX && 0 <= offset + o <= i64::MAX ==> spec_seek_target(
            SeekFrom::Current(o),
            offset,
            size,
        ) == offset + o,
        offset <= i64::MAX && i64::MIN <= offset + o < 0 ==> spec_seek_target(
            SeekFrom::Current(o),
            offset,
            size,
        ) == offset + o + 0x1_0000_0000_0000_0000,
        size <= i64::MAX && 0 <= size + o <= i64::MAX ==> spec_seek_target(
            SeekFrom::End(o),
            offset,
            size,
        ) == size + o,
        size <= i64::MAX && i64::MIN <= size + o < 0 ==> spec_seek_target(
            SeekFrom::End(o),
            offset,
            size,
        ) == size + o + 0x1_0000_0000_0000_0000,
{
    let c: i64 = ((offset as i64) + o) as i64;
    let e: i64 = ((size as i64) + o) as i64;
    if offset <= i64::MAX && i64::MIN <= offset + o <= i64::MAX {
        assert((offset as i64) == offset);
        assert(c == offset + o);
        if c < 0 {
            assert((c as u64) == c + 0x1_0000_0000_0000_0000) by (bit_vector)
                requires
                    c < 0,
            ;
        } else {
            assert((c as u64) == c) by (bit_vector)
                requires
                    c >= 0,
            ;
        }
    }
    if size <= i64::MAX && i64::MIN <= size + o <= i64::MAX {
        assert((size as i64) == size);
        assert(e == size + o);
        if e < 0 {
            assert((e as u64) == e + 0x1_0000_0000_0000_0000) by (bit_vector)
                requires
                    e < 0,
            ;
        } else {
            assert((e as u64) == e) by (bit_vector)
                requires
                    e >= 0,
            ;
        }
    }
}

} // verus!
