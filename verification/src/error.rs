//! Linux error numbers returned by the kernel.

use vstd::prelude::*;

verus! {

/// A Linux error number.
#[derive(Clone, Copy, Debug, PartialEq, Eq, Structural)]
pub enum LxError {
    /// Operation not permitted
    EPERM,
    /// No such file or directory
    ENOENT,
    /// No such process
    ESRCH,
    /// Interrupted system call
    EINTR,
    /// I/O error
    EIO,
    /// No such device or address
    ENXIO,
    /// Argument list too long
    E2BIG,
    /// Exec format error
    ENOEXEC,
    /// Bad file number
    EBADF,
    /// No child processes
    ECHILD,
    /// Try again
    EAGAIN,
    /// Out of memory
    ENOMEM,
    /// Permission denied
    EACCES,
    /// Bad address
    EFAULT,
    /// Block device required
    ENOTBLK,
    /// Device or resource busy
    EBUSY,
    /// File exists
    EEXIST,
    /// Cross-device link
    EXDEV,
    /// No such device
    ENODEV,
    /// Not a directory
    ENOTDIR,
    /// Is a directory
    EISDIR,
    /// Invalid argument
    EINVAL,
    /// File table overflow
    ENFILE,
    /// Too many open files
    EMFILE,
    /// Not a typewriter
    ENOTTY,
    /// Text file busy
    ETXTBSY,
    /// File too large
    EFBIG,
    /// No space left on device
    ENOSPC,
    /// Illegal seek
    ESPIPE,
    /// Read-only file system
    EROFS,
    /// Too many links
    EMLINK,
    /// Broken pipe
    EPIPE,
    /// Math argument out of domain of func
    EDOM,
    /// Math result not representable
    ERANGE,
    /// Resource deadlock would occur
    EDEADLK,
    /// File name too long
    ENAMETOOLONG,
    /// No record locks available
    ENOLCK,
    /// Function not implemented
    ENOSYS,
    /// Directory not empty
    ENOTEMPTY,
    /// Too many symbolic links encountered
    ELOOP,
    /// No buffer space available
    ENOBUFS,
}

/// The result of a kernel operation.
pub type LxResult<T> = Result<T, LxError>;

impl LxError {
    /// The error number, as Linux defines it.
    pub open spec fn code(self) -> int {
        match self {
            LxError::EPERM => 1,
            LxError::ENOENT => 2,
            LxError::ESRCH => 3,
            LxError::EINTR => 4,
            LxError::EIO => 5,
            LxError::ENXIO => 6,
            LxError::E2BIG => 7,
            LxError::ENOEXEC => 8,
            LxError::EBADF => 9,
            LxError::ECHILD => 10,
            LxError::EAGAIN => 11,
            LxError::ENOMEM => 12,
            LxError::EACCES => 13,
            LxError::EFAULT => 14,
            LxError::ENOTBLK => 15,
            LxError::EBUSY => 16,
            LxError::EEXIST => 17,
            LxError::EXDEV => 18,
            LxError::ENODEV => 19,
            LxError::ENOTDIR => 20,
            LxError::EISDIR => 21,
            LxError::EINVAL => 22,
            LxError::ENFILE => 23,
            LxError::EMFILE => 24,
            LxError::ENOTTY => 25,
            LxError::ETXTBSY => 26,
            LxError::EFBIG => 27,
            LxError::ENOSPC => 28,
            LxError::ESPIPE => 29,
            LxError::EROFS => 30,
            LxError::EMLINK => 31,
            LxError::EPIPE => 32,
            LxError::EDOM => 33,
            LxError::ERANGE => 34,
            LxError::EDEADLK => 35,
            LxError::ENAMETOOLONG => 36,
            LxError::ENOLCK => 37,
            LxError::ENOSYS => 38,
            LxError::ENOTEMPTY => 39,
            LxError::ELOOP => 40,
            LxError::ENOBUFS => 105,
        }
    }

    /// The error number, as Linux defines it.
    pub fn errno(self) -> (r: i32)
        ensures
            r == self.code(),
    {
        match self {
            LxError::EPERM => 1,
            LxError::ENOENT => 2,
            LxError::ESRCH => 3,
            LxError::EINTR => 4,
            LxError::EIO => 5,
            LxError::ENXIO => 6,
            LxError::E2BIG => 7,
            LxError::ENOEXEC => 8,
            LxError::EBADF => 9,
            LxError::ECHILD => 10,
            LxError::EAGAIN => 11,
            LxError::ENOMEM => 12,
            LxError::EACCES => 13,
            LxError::EFAULT => 14,
            LxError::ENOTBLK => 15,
            LxError::EBUSY => 16,
            LxError::EEXIST => 17,
            LxError::EXDEV => 18,
            LxError::ENODEV => 19,
            LxError::ENOTDIR => 20,
            LxError::EISDIR => 21,
            LxError::EINVAL => 22,
            LxError::ENFILE => 23,
            LxError::EMFILE => 24,
            LxError::ENOTTY => 25,
            LxError::ETXTBSY => 26,
            LxError::EFBIG => 27,
            LxError::ENOSPC => 28,
            LxError::ESPIPE => 29,
            LxError::EROFS => 30,
            LxError::EMLINK => 31,
            LxError::EPIPE => 32,
            LxError::EDOM => 33,
            LxError::ERANGE => 34,
            LxError::EDEADLK => 35,
            LxError::ENAMETOOLONG => 36,
            LxError::ENOLCK => 37,
            LxError::ENOSYS => 38,
            LxError::ENOTEMPTY => 39,
            LxError::ELOOP => 40,
            LxError::ENOBUFS => 105,
        }
    }

    /// The error whose number is `code`, if there is one.
    pub fn from_errno(code: isize) -> (r: Option<LxError>)
        ensures
            match r {
                Some(e) => e.code() == code,
                None => forall|e: LxError| #[trigger] e.code() != code,
            },
    {
        match code {
            1 => Some(LxError::EPERM),
            2 => Some(LxError::ENOENT),
            3 => Some(LxError::ESRCH),
            4 => Some(LxError::EINTR),
            5 => Some(LxError::EIO),
            6 => Some(LxError::ENXIO),
            7 => Some(LxError::E2BIG),
            8 => Some(LxError::ENOEXEC),
            9 => Some(LxError::EBADF),
            10 => Some(LxError::ECHILD),
            11 => Some(LxError::EAGAIN),
            12 => Some(LxError::ENOMEM),
            13 => Some(LxError::EACCES),
            14 => Some(LxError::EFAULT),
            15 => Some(LxError::ENOTBLK),
            16 => Some(LxError::EBUSY),
            17 => Some(LxError::EEXIST),
            18 => Some(LxError::EXDEV),
            19 => Some(LxError::ENODEV),
            20 => Some(LxError::ENOTDIR),
            21 => Some(LxError::EISDIR),
            22 => Some(LxError::EINVAL),
            23 => Some(LxError::ENFILE),
            24 => Some(LxError::EMFILE),
            25 => Some(LxError::ENOTTY),
            26 => Some(LxError::ETXTBSY),
            27 => Some(LxError::EFBIG),
            28 => Some(LxError::ENOSPC),
            29 => Some(LxError::ESPIPE),
            30 => Some(LxError::EROFS),
            31 => Some(LxError::EMLINK),
            32 => Some(LxError::EPIPE),
            33 => Some(LxError::EDOM),
            34 => Some(LxError::ERANGE),
            35 => Some(LxError::EDEADLK),
            36 => Some(LxError::ENAMETOOLONG),
            37 => Some(LxError::ENOLCK),
            38 => Some(LxError::ENOSYS),
            39 => Some(LxError::ENOTEMPTY),
            40 => Some(LxError::ELOOP),
            105 => Some(LxError::ENOBUFS),
            _ => None,
        }
    }
}

/// The error numbers that the kernel's answers carry are those of Linux,
/// and no two errors share a number.
pub proof fn lemma_error_numbers(a: LxError, b: LxError)
    ensures
        LxError::EPERM.code() == 1,
        LxError::ENOENT.code() == 2,
        LxError::EINTR.code() == 4,
        LxError::EIO.code() == 5,
        LxError::EBADF.code() == 9,
        LxError::EAGAIN.code() == 11,
        LxError::ENOMEM.code() == 12,
        LxError::EINVAL.code() == 22,
        LxError::ENOSYS.code() == 38,
        LxError::ENOBUFS.code() == 105,
        a.code() > 0,
        a.code() == b.code() ==> a == b,
{
}

} // verus!
