//! The system-call side of the asynchronous call interface.

use crate::asynccall::{spec_new_result, AsyncCallBuffer, ASYNC_CALL_INFO_USER_SIZE};
use crate::error::{LxError, LxResult};
use vstd::prelude::*;

verus! {

/// The architectures whose system-call numbers the kernel knows.
#[derive(Clone, Copy, Debug, PartialEq, Eq, Structural)]
pub enum Arch {
    X86_64,
    Riscv64,
}

/// `clone`, as numbered on x86_64.
pub const SYS_CLONE: usize = 56;
/// `execve`, as numbered on x86_64.
pub const SYS_EXECVE: usize = 59;
/// `exit`, as numbered on x86_64.
pub const SYS_EXIT: usize = 60;
/// `exit_group`, as numbered on x86_64.
pub const SYS_EXIT_GROUP: usize = 231;
/// `sched_yield`, as numbered on x86_64.
pub const SYS_SCHED_YIELD: usize = 24;
/// `wait4`, as numbered on x86_64.
pub const SYS_WAIT4: usize = 61;
/// `nanosleep`, as numbered on x86_64.
pub const SYS_NANOSLEEP: usize = 35;

/// `clone`, as numbered on riscv64.
pub const RISCV64_SYS_CLONE: usize = 220;
/// `execve`, as numbered on riscv64.
pub const RISCV64_SYS_EXECVE: usize = 221;
/// `exit`, as numbered on riscv64.
pub const RISCV64_SYS_EXIT: usize = 93;
/// `exit_group`, as numbered on riscv64.
pub const RISCV64_SYS_EXIT_GROUP: usize = 94;
/// `sched_yield`, as numbered on riscv64.
pub const RISCV64_SYS_SCHED_YIELD: usize = 124;
/// `wait4`, as numbered on riscv64.
pub const RISCV64_SYS_WAIT4: usize = 260;
/// `nanosleep`, as numbered on riscv64.
pub const RISCV64_SYS_NANOSLEEP: usize = 101;

/// Whether the call `syscall_id` may be made asynchronously on `arch`:
/// every call but those that create, replace, end or suspend the calling
/// thread, as `arch` numbers them.
pub open spec fn spec_is_trivial_syscall(arch: Arch, syscall_id: usize) -> bool {
    match arch {
        Arch::X86_64 => !(syscall_id == SYS_CLONE || syscall_id == SYS_EXECVE || syscall_id
            == SYS_EXIT || syscall_id == SYS_EXIT_GROUP || syscall_id == SYS_SCHED_YIELD
            || syscall_id == SYS_WAIT4 || syscall_id == SYS_NANOSLEEP),
        Arch::Riscv64 => !(syscall_id == RISCV64_SYS_CLONE || syscall_id == RISCV64_SYS_EXECVE
            || syscall_id == RISCV64_SYS_EXIT || syscall_id == RISCV64_SYS_EXIT_GROUP
            || syscall_id == RISCV64_SYS_SCHED_YIELD || syscall_id == RISCV64_SYS_WAIT4
            || syscall_id == RISCV64_SYS_NANOSLEEP),
    }
}

/// Whether the call `syscall_id` may be made asynchronously on `arch`.
pub fn is_trivial_syscall(arch: Arch, syscall_id: usize) -> (r: bool)
    ensures
        r == spec_is_trivial_syscall(arch, syscall_id),
{
    match arch {
        Arch::X86_64 => !(syscall_id == SYS_CLONE || syscall_id == SYS_EXECVE || syscall_id
            == SYS_EXIT || syscall_id == SYS_EXIT_GROUP || syscall_id == SYS_SCHED_YIELD
            || syscall_id == SYS_WAIT4 || syscall_id == SYS_NANOSLEEP),
        Arch::Riscv64 => !(syscall_id == RISCV64_SYS_CLONE || syscall_id == RISCV64_SYS_EXECVE
            || syscall_id == RISCV64_SYS_EXIT || syscall_id == RISCV64_SYS_EXIT_GROUP
            || syscall_id == RISCV64_SYS_SCHED_YIELD || syscall_id == RISCV64_SYS_WAIT4
            || syscall_id == RISCV64_SYS_NANOSLEEP),
    }
}

/// What the handler of asynchronous calls answers at once for call `num`
/// on `arch`: `None` where the call is to be made, the negated `EINVAL`
/// where it may not be made asynchronously.
pub fn reject_untrivial_syscall(arch: Arch, num: u32) -> (r: Option<isize>)
    ensures
        r == (if spec_is_trivial_syscall(arch, num as usize) {
            None
        } else {
            Some(-(LxError::EINVAL.code()) as isize)
        }),
{
    if is_trivial_syscall(arch, num as usize) {
        None
    } else {
        Some(-(LxError::EINVAL.errno() as isize))
    }
}

/// The first step of an asynchronous call.
#[derive(Clone, Copy, Debug)]
pub enum AsyncCallStep {
    /// The call ends with this result, and the handler is not called.
    Finish(LxResult<usize>),
    /// The handler is to be called, and its raw result converted with
    /// `async_call_result`.
    CallHandler,
}

/// The first step of an asynchronous call for a thread that `thread_is_dead`
/// says whether has died: a dead thread's call ends with `EPERM` and the
/// handler is not called; a living thread's call goes to the handler.
pub fn begin_async_call(thread_is_dead: bool) -> (r: AsyncCallStep)
    ensures
        thread_is_dead ==> r == AsyncCallStep::Finish(Err(LxError::EPERM)),
        !thread_is_dead ==> r == AsyncCallStep::CallHandler,
{
    if thread_is_dead {
        AsyncCallStep::Finish(Err(LxError::EPERM))
    } else {
        AsyncCallStep::CallHandler
    }
}

/// The result of an asynchronous call whose handler returned `ret`: the
/// value where it is not negative. A negative `ret` is converted to an
/// error by its number as it stands, and no error has a negative number, so
/// every negative `ret` gives `EINVAL`: the kernel reports every failed
/// asynchronous call as `EINVAL`, whatever the handler's error was.
pub fn async_call_result(ret: isize) -> (r: LxResult<usize>)
    ensures
        ret >= 0 ==> r == Ok::<usize, LxError>(ret as usize),
        ret < 0 ==> r == Err::<usize, LxError>(LxError::EINVAL),
{
    if ret < 0 {
        match LxError::from_errno(ret) {
            Some(e) => Err(e),
            None => Err(LxError::EINVAL),
        }
    } else {
        Ok(ret as usize)
    }
}

/// Sets up the buffer of asynchronous calls: `EINVAL` where `info_size` is
/// not the size of `AsyncCallInfoUser`, otherwise what
/// `AsyncCallBuffer::new` gives for the two capacities. The buffer is then
/// mapped into the process, which is told where with `fill_user_info`.
pub fn sys_setup_async_call(
    req_capacity: usize,
    comp_capacity: usize,
    _worker_num: usize,
    info_size: usize,
) -> (r: LxResult<AsyncCallBuffer>)
    ensures
        info_size != ASYNC_CALL_INFO_USER_SIZE ==> r == Err::<AsyncCallBuffer, LxError>(LxError::EINVAL),
        info_size == ASYNC_CALL_INFO_USER_SIZE ==> spec_new_result(req_capacity, comp_capacity, r),
{
    if info_size != ASYNC_CALL_INFO_USER_SIZE {
        return Err(LxError::EINVAL);
    }
    AsyncCallBuffer::new(req_capacity, comp_capacity)
}

/// On x86_64 a call is refused exactly when its number is that of clone
/// (56), execve (59), exit (60), exit_group (231), sched_yield (24), wait4
/// (61) or nanosleep (35); every other call is made.
pub proof fn lemma_trivial_syscalls_x86_64(id: usize)
    ensures
        !spec_is_trivial_syscall(Arch::X86_64, id) <==> (id == 56 || id == 59 || id == 60 || id
            == 231 || id == 24 || id == 61 || id == 35),
{
}

/// On riscv64 a call is refused exactly when its number is that of clone
/// (220), execve (221), exit (93), exit_group (94), sched_yield (124), wait4
/// (260) or nanosleep (101); every other call, 35 among them, is made.
pub proof fn lemma_trivial_syscalls_riscv64(id: usize)
    ensures
        !spec_is_trivial_syscall(Arch::Riscv64, id) <==> (id == 220 || id == 221 || id == 93
            || id == 94 || id == 124 || id == 260 || id == 101),
{
}

} // verus!
