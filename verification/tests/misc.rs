use zcore_asynccall::cache::{cache_aligned, check_aligned, roundup_cache, AlignCacheLine};
use zcore_asynccall::device::{Block, BlockScheme, DevError, MemBuf};
use zcore_asynccall::error::LxError;
use zcore_asynccall::syscall::{
    async_call_result, begin_async_call, is_trivial_syscall, AsyncCallStep, reject_untrivial_syscall,
    sys_setup_async_call, Arch, RISCV64_SYS_CLONE, RISCV64_SYS_EXECVE, RISCV64_SYS_EXIT,
    RISCV64_SYS_EXIT_GROUP, RISCV64_SYS_NANOSLEEP, RISCV64_SYS_SCHED_YIELD, RISCV64_SYS_WAIT4,
    SYS_CLONE, SYS_EXECVE, SYS_EXIT, SYS_EXIT_GROUP, SYS_NANOSLEEP, SYS_SCHED_YIELD, SYS_WAIT4,
};
use zcore_asynccall::trap::breakpoint;

#[test]
fn roundup_to_cache_lines() {
    assert_eq!(roundup_cache(0), 0);
    assert_eq!(roundup_cache(1), 64);
    assert_eq!(roundup_cache(64), 64);
    assert_eq!(roundup_cache(65), 128);
    assert_eq!(roundup_cache(576), 576);
}

#[test]
fn cache_alignment() {
    assert!(cache_aligned(0));
    assert!(cache_aligned(128));
    assert!(!cache_aligned(100));
    assert!(check_aligned(12, 4));
    assert!(!check_aligned(13, 4));
}

#[test]
fn align_cache_line_holds_its_value() {
    let mut c = AlignCacheLine::new(5u32);
    assert_eq!(c.get(), 5);
    *c.as_mut() = 9;
    assert_eq!(*c.as_ref(), 9);
}

#[test]
fn error_numbers() {
    assert_eq!(LxError::EPERM.errno(), 1);
    assert_eq!(LxError::EBADF.errno(), 9);
    assert_eq!(LxError::EINVAL.errno(), 22);
    assert_eq!(LxError::ENOBUFS.errno(), 105);
    assert_eq!(LxError::from_errno(9), Some(LxError::EBADF));
    assert_eq!(LxError::from_errno(38), Some(LxError::ENOSYS));
    assert_eq!(LxError::from_errno(-22), None);
    assert_eq!(LxError::from_errno(0), None);
}

#[test]
fn trivial_syscalls() {
    for id in [SYS_CLONE, SYS_EXECVE, SYS_EXIT, SYS_EXIT_GROUP, SYS_SCHED_YIELD, SYS_WAIT4, SYS_NANOSLEEP] {
        assert!(!is_trivial_syscall(Arch::X86_64, id));
    }
    assert!(is_trivial_syscall(Arch::X86_64, 0));
    assert!(is_trivial_syscall(Arch::X86_64, 1));
    assert_eq!(reject_untrivial_syscall(Arch::X86_64, 59), Some(-22));
    assert_eq!(reject_untrivial_syscall(Arch::X86_64, 1), None);
    assert_eq!(reject_untrivial_syscall(Arch::Riscv64, 59), None);
    assert_eq!(reject_untrivial_syscall(Arch::Riscv64, 221), Some(-22));
}

#[test]
fn async_call_results() {
    assert_eq!(async_call_result(9), Ok(9));
    assert_eq!(async_call_result(0), Ok(0));
    assert_eq!(async_call_result(-9), Err(LxError::EINVAL));
    assert_eq!(async_call_result(-1000), Err(LxError::EINVAL));
}

#[test]
fn setup_checks_the_info_size() {
    assert_eq!(sys_setup_async_call(4, 4, 1, 48).err(), Some(LxError::EINVAL));
    assert_eq!(sys_setup_async_call(0, 4, 1, 56).err(), Some(LxError::EINVAL));
    let buf = sys_setup_async_call(3, 4, 1, 56).unwrap();
    assert_eq!(buf.req_capacity, 4);
    assert_eq!(buf.comp_capacity, 4);
}

#[test]
fn mem_buf_reads_what_it_holds() {
    let dev = MemBuf::new(vec![1, 2, 3, 4, 5]);
    let mut buf = vec![0u8; 3];
    assert_eq!(dev.read_at(1, &mut buf), 3);
    assert_eq!(buf, vec![2, 3, 4]);
    let mut buf = vec![0u8; 4];
    assert_eq!(dev.read_at(3, &mut buf), 2);
    assert_eq!(buf, vec![4, 5, 0, 0]);
    assert_eq!(dev.read_at(5, &mut buf), 0);
}

#[test]
fn mem_buf_reads_back_what_was_written() {
    let mut dev = MemBuf::new(vec![1, 2, 3, 4, 5]);
    assert_eq!(dev.write_at(1, &[7, 8]), 2);
    assert_eq!(dev.write_at(4, &[9, 9, 9]), 1);
    let mut buf = vec![0u8; 5];
    assert_eq!(dev.read_at(0, &mut buf), 5);
    assert_eq!(buf, vec![1, 7, 8, 4, 9]);
}

struct Disk {
    fail: bool,
}

impl BlockScheme for Disk {
    type Error = u32;
    fn read_block(&self, block_id: usize, buf: &mut [u8]) -> Result<(), u32> {
        if self.fail {
            return Err(1);
        }
        for b in buf.iter_mut() {
            *b = block_id as u8;
        }
        Ok(())
    }
    fn write_block(&self, _block_id: usize, _buf: &[u8]) -> Result<(), u32> {
        if self.fail { Err(2) } else { Ok(()) }
    }
    fn flush(&self) -> Result<(), u32> {
        if self.fail { Err(3) } else { Ok(()) }
    }
}

#[test]
fn block_device_passes_through_and_maps_errors() {
    let ok = Block::new(Disk { fail: false });
    let mut buf = [0u8; 4];
    assert_eq!(ok.read_at(7, &mut buf), Ok(()));
    assert_eq!(buf, [7, 7, 7, 7]);
    assert_eq!(ok.write_at(1, &buf), Ok(()));
    assert_eq!(ok.sync(), Ok(()));
    let bad = Block::new(Disk { fail: true });
    assert_eq!(bad.read_at(7, &mut buf), Err(DevError));
    assert_eq!(bad.write_at(1, &buf), Err(DevError));
    assert_eq!(bad.sync(), Err(DevError));
}

#[test]
fn breakpoint_skips_the_ebreak() {
    let mut sepc: usize = 0x8020_0000;
    breakpoint(&mut sepc);
    assert_eq!(sepc, 0x8020_0002);
}

#[test]
fn mem_buf_size() {
    assert_eq!(MemBuf::new(vec![0; 7]).len(), 7);
}

#[test]
fn trivial_syscalls_on_riscv64() {
    for id in [
        RISCV64_SYS_CLONE,
        RISCV64_SYS_EXECVE,
        RISCV64_SYS_EXIT,
        RISCV64_SYS_EXIT_GROUP,
        RISCV64_SYS_SCHED_YIELD,
        RISCV64_SYS_WAIT4,
        RISCV64_SYS_NANOSLEEP,
    ] {
        assert!(!is_trivial_syscall(Arch::Riscv64, id));
        assert!(is_trivial_syscall(Arch::X86_64, id));
    }
    assert!(is_trivial_syscall(Arch::Riscv64, SYS_CLONE));
    assert!(is_trivial_syscall(Arch::Riscv64, 63));
}

#[test]
fn dead_threads_calls_end_with_eperm() {
    assert!(matches!(begin_async_call(true), AsyncCallStep::Finish(Err(LxError::EPERM))));
    assert!(matches!(begin_async_call(false), AsyncCallStep::CallHandler));
}

#[test]
fn align_cache_line_derefs_and_converts() {
    let c: AlignCacheLine<u32> = AlignCacheLine::from(7);
    assert_eq!(*c, 7);
    assert_eq!(c.get(), 7);
    assert_eq!(format!("{:?}", c), "AlignCacheLine(7)");
}
