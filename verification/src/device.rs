//! Devices that file systems can be loaded on: a memory buffer, and a block
//! device over a driver.

use vstd::prelude::*;

verus! {

/// The error of a device operation.
#[derive(Clone, Copy, Debug, PartialEq, Eq, Structural)]
pub struct DevError;

/// Memory buffer for device.
pub struct MemBuf {
    data: Vec<u8>,
}

/// How many bytes an access of `want` bytes at `offset` reaches in a device
/// of `size` bytes: as many as are wanted, but not past the end.
pub open spec fn spec_access_len(size: int, offset: int, want: int) -> int {
    if want < size - offset {
        want
    } else {
        size - offset
    }
}

/// The contents of a device after `bytes` are written at `offset`, as far as
/// the device reaches.
pub open spec fn spec_write(data: Seq<u8>, offset: int, bytes: Seq<u8>) -> Seq<u8> {
    let len = spec_access_len(data.len() as int, offset, bytes.len() as int);
    data.subrange(0, offset) + bytes.subrange(0, len) + data.subrange(offset + len, data.len() as int)
}

/// What a buffer of `buf` holds after `want` bytes of `data` are read at
/// `offset` into it: the bytes read, then what it held past them.
pub open spec fn spec_read(data: Seq<u8>, offset: int, buf: Seq<u8>) -> Seq<u8> {
    let len = spec_access_len(data.len() as int, offset, buf.len() as int);
    data.subrange(offset, offset + len) + buf.subrange(len, buf.len() as int)
}

/// Reading back at the offset of a write gives the bytes written, as far as
/// the device reaches; the size of the device does not change.
pub proof fn lemma_read_after_write(data: Seq<u8>, offset: int, bytes: Seq<u8>, buf: Seq<u8>)
    requires
        0 <= offset <= data.len(),
        buf.len() == bytes.len(),
    ensures
        spec_write(data, offset, bytes).len() == data.len(),
        spec_read(spec_write(data, offset, bytes), offset, buf) == bytes.subrange(
            0,
            spec_access_len(data.len() as int, offset, bytes.len() as int),
        ) + buf.subrange(
            spec_access_len(data.len() as int, offset, bytes.len() as int),
            buf.len() as int,
        ),
{
    let len = spec_access_len(data.len() as int, offset, bytes.len() as int);
    let w = spec_write(data, offset, bytes);
    assert(w.subrange(offset, offset + len) =~= bytes.subrange(0, len));
}

impl MemBuf {
    /// The contents of the buffer.
    pub closed spec fn contents(&self) -> Seq<u8> {
        self.data@
    }

    /// A device over the bytes of `buf`.
    pub fn new(buf: Vec<u8>) -> (r: Self)
        ensures
            r.contents() == buf@,
    {
        MemBuf { data: buf }
    }

    /// The size of the device, in bytes.
    pub fn len(&self) -> (r: usize)
        ensures
            r == self.contents().len(),
    {
        self.data.len()
    }

    /// Reads the bytes at `offset` into `buf`, as many as it holds but not
    /// past the end of the device, and returns how many were read.
    pub fn read_at(&self, offset: usize, buf: &mut [u8]) -> (r: usize)
        requires
            offset <= self.contents().len(),
        ensures
            r == spec_access_len(self.contents().len() as int, offset as int, old(buf)@.len() as int),
            final(buf)@ == spec_read(self.contents(), offset as int, old(buf)@),
    {
        let size: usize = self.data.len();
        let len: usize = if buf.len() < size - offset {
            buf.len()
        } else {
            size - offset
        };
        let ghost b0 = buf@;
        let mut i: usize = 0;
        while i < len
            invariant
                len <= buf@.len() == b0.len(),
                offset + len <= size == self.data@.len(),
                i <= len,
                forall|j: int| 0 <= j < i ==> buf@[j] == self.data@[offset + j],
                forall|j: int| i <= j < b0.len() ==> buf@[j] == b0[j],
            decreases len - i,
        {
            buf[i] = self.data[offset + i];
            i = i + 1;
        }
        assert(buf@ =~= spec_read(self.data@, offset as int, b0));
        len
    }

    /// Writes the bytes of `buf` at `offset`, as many as fit before the end
    /// of the device, and returns how many were written.
    pub fn write_at(&mut self, offset: usize, buf: &[u8]) -> (r: usize)
        requires
            offset <= old(self).contents().len(),
        ensures
            r == spec_access_len(old(self).contents().len() as int, offset as int, buf@.len() as int),
            final(self).contents() == spec_write(old(self).contents(), offset as int, buf@),
    {
        let size: usize = self.data.len();
        let len: usize = if buf.len() < size - offset {
            buf.len()
        } else {
            size - offset
        };
        let ghost d0 = self.data@;
        let mut i: usize = 0;
        while i < len
            invariant
                len <= buf@.len(),
                offset + len <= size == d0.len() == self.data@.len(),
                i <= len,
                forall|j: int| 0 <= j < offset ==> self.data@[j] == d0[j],
                forall|j: int| 0 <= j < i ==> self.data@[offset + j] == buf@[j],
                forall|j: int| offset + i <= j < size ==> self.data@[j] == d0[j],
            decreases len - i,
        {
            self.data.set(offset + i, buf[i]);
            i = i + 1;
        }
        assert(self.data@ =~= spec_write(d0, offset as int, buf@));
        len
    }
}

/// A block driver.
pub trait BlockScheme {
    /// What an operation of the driver fails with.
    type Error;

    /// Reads block `block_id` into `buf`.
    fn read_block(&self, block_id: usize, buf: &mut [u8]) -> Result<(), Self::Error>;

    /// Writes `buf` to block `block_id`.
    fn write_block(&self, block_id: usize, buf: &[u8]) -> Result<(), Self::Error>;

    /// Writes out what the driver holds back.
    fn flush(&self) -> Result<(), Self::Error>;
}

/// What a block device answers for an operation of its driver that gave
/// `r`: success for success, `DevError` for any failure.
pub fn to_dev_result<E>(r: Result<(), E>) -> (d: Result<(), DevError>)
    ensures
        d is Ok <==> r is Ok,
        d matches Err(e) ==> e == DevError,
{
    match r {
        Ok(()) => Ok(()),
        Err(_) => Err(DevError),
    }
}

/// Block device over a driver.
pub struct Block<S> {
    scheme: S,
}

impl<S: BlockScheme> Block<S> {
    /// The driver.
    pub closed spec fn spec_scheme(&self) -> S {
        self.scheme
    }

    /// A block device over `block`.
    pub fn new(block: S) -> (r: Self)
        ensures
            r.spec_scheme() == block,
    {
        Block { scheme: block }
    }

    /// Reads block `block_id` into `buf` through the driver's `read_block`,
    /// handed this block and this buffer: success where that call succeeds,
    /// `DevError` where it fails.
    pub fn read_at(&self, block_id: usize, buf: &mut [u8]) -> (r: Result<(), DevError>)
        ensures
            exists|d: Result<(), S::Error>, b: &mut [u8]|
                #[trigger] call_ensures(S::read_block, (&self.spec_scheme(), block_id, b), d)
                    && b@ == old(buf)@ && final(b)@ == final(buf)@ && (
                r is Ok <==> d is Ok),
            r matches Err(e) ==> e == DevError,
    {
        let read = S::read_block;
        let d = read(&self.scheme, block_id, buf);
        assert(exists|b: &mut [u8]|
            #[trigger] call_ensures(S::read_block, (&self.spec_scheme(), block_id, b), d) && b@
                == old(buf)@ && final(b)@ == final(buf)@);
        to_dev_result(d)
    }

    /// Writes `buf` to block `block_id` through the driver's `write_block`,
    /// handed this block and this buffer: success where that call succeeds,
    /// `DevError` where it fails.
    pub fn write_at(&self, block_id: usize, buf: &[u8]) -> (r: Result<(), DevError>)
        ensures
            exists|d: Result<(), S::Error>|
                call_ensures(S::write_block, (&self.spec_scheme(), block_id, buf), d) && (r is Ok
                    <==> d is Ok),
            r matches Err(e) ==> e == DevError,
    {
        let write = S::write_block;
        let d = write(&self.scheme, block_id, buf);
        assert(call_ensures(S::write_block, (&self.spec_scheme(), block_id, buf), d));
        to_dev_result(d)
    }

    /// Flushes the driver through its `flush`: success where that call
    /// succeeds, `DevError` where it fails.
    pub fn sync(&self) -> (r: Result<(), DevError>)
        ensures
            exists|d: Result<(), S::Error>|
                call_ensures(S::flush, (&self.spec_scheme(),), d) && (r is Ok <==> d is Ok),
            r matches Err(e) ==> e == DevError,
    {
        let flush = S::flush;
        let d = flush(&self.scheme);
        assert(call_ensures(S::flush, (&self.spec_scheme(),), d));
        to_dev_result(d)
    }
}

/// An access reaches as many bytes as wanted, but none past the end of the
/// device.
pub proof fn lemma_access_len(size: int, offset: int, want: int)
    requires
        0 <= offset <= size,
        0 <= want,
    ensures
        0 <= spec_access_len(size, offset, want) <= want,
        offset + spec_access_len(size, offset, want) <= size,
        spec_access_len(size, offset, want) == want || offset + spec_access_len(
            size,
            offset,
            want,
        ) == size,
{
}

/// A read fills the front of the buffer with the device's bytes from the
/// offset on, as many as it reaches, and leaves the rest of the buffer; a
/// write puts the bytes given at the offset, as many as fit, and leaves
/// every other byte of the device.
pub proof fn lemma_read_write_bytes(data: Seq<u8>, offset: int, buf: Seq<u8>, k: int)
    requires
        0 <= offset <= data.len(),
    ensures
        ({
            let len = spec_access_len(data.len() as int, offset, buf.len() as int);
            &&& spec_read(data, offset, buf).len() == buf.len()
            &&& 0 <= k < len ==> spec_read(data, offset, buf)[k] == data[offset + k]
            &&& len <= k < buf.len() ==> spec_read(data, offset, buf)[k] == buf[k]
            &&& spec_write(data, offset, buf).len() == data.len()
            &&& 0 <= k < len ==> spec_write(data, offset, buf)[offset + k] == buf[k]
            &&& 0 <= k < data.len() && !(offset <= k < offset + len) ==> spec_write(
                data,
                offset,
                buf,
            )[k] == data[k]
        }),
{
}

} // verus!
