use zcore_asynccall::error::LxError;
use zcore_asynccall::file::{get_vmo_plan, FileInner, FileKind, SeekFrom, VmoPlan};
use zcore_asynccall::flags::OpenFlags;

#[test]
fn access_modes() {
    assert!(OpenFlags::RDONLY().readable());
    assert!(!OpenFlags::RDONLY().writable());
    assert!(!OpenFlags::WRONLY().readable());
    assert!(OpenFlags::WRONLY().writable());
    assert!(OpenFlags::RDWR().readable());
    assert!(OpenFlags::RDWR().writable());
    let both = OpenFlags::from_bits_truncate(3);
    assert!(!both.readable());
    assert!(!both.writable());
}

#[test]
fn status_flags() {
    let f = OpenFlags::from_bits_truncate(0x400 | 0x800 | 0x80000 | 1);
    assert!(f.is_append());
    assert!(f.non_block());
    assert!(f.close_on_exec());
    assert!(f.writable());
    let g = OpenFlags::RDONLY();
    assert!(!g.is_append() && !g.non_block() && !g.close_on_exec());
}

#[test]
fn flags_from_bits() {
    assert_eq!(OpenFlags::from_bits_truncate(0x1000_0401).bits(), 0x401);
    assert!(OpenFlags::from_bits(0x1000).is_none());
    assert_eq!(OpenFlags::from_bits(0x42).map(|f| f.bits()), Some(0x42));
    assert_eq!(OpenFlags::all().bits(), 0x80ec3);
    assert_eq!(OpenFlags::empty().bits(), 0);
    let mut f = OpenFlags::empty();
    f.insert(OpenFlags::CREATE());
    f.set(OpenFlags::TRUNCATE(), true);
    assert!(f.contains(OpenFlags::CREATE()) && f.contains(OpenFlags::TRUNCATE()));
    f.remove(OpenFlags::CREATE());
    f.set(OpenFlags::EXCLUSIVE(), false);
    assert_eq!(f.bits(), 0x200);
}

#[test]
fn seek_from_start_end_and_current() {
    let mut file = FileInner::new(OpenFlags::RDWR());
    assert_eq!(file.offset(), 0);
    assert_eq!(file.seek(SeekFrom::Start(10), 0), 10);
    assert_eq!(file.seek(SeekFrom::Current(-3), 0), 7);
    assert_eq!(file.seek(SeekFrom::End(5), 100), 105);
    assert_eq!(file.seek(SeekFrom::End(-100), 100), 0);
    assert_eq!(file.offset(), 0);
}

#[test]
fn seek_before_the_start_wraps() {
    let mut file = FileInner::new(OpenFlags::RDONLY());
    file.seek(SeekFrom::Start(7), 0);
    assert_eq!(file.seek(SeekFrom::Current(-20), 0), u64::MAX - 12);
}

#[test]
fn reads_need_read_access_and_advance() {
    let mut file = FileInner::new(OpenFlags::RDONLY());
    assert_eq!(file.check_read_at(), Ok(()));
    assert_eq!(file.check_writable(), Err(LxError::EBADF));
    file.read_done(12);
    file.read_done(3);
    assert_eq!(file.offset(), 15);
    file.read_entry_done();
    assert_eq!(file.offset(), 16);
    let wo = FileInner::new(OpenFlags::WRONLY());
    assert_eq!(wo.check_readable(), Err(LxError::EBADF));
    assert_eq!(wo.check_read_at(), Err(LxError::EBADF));
    assert_eq!(wo.check_writable(), Ok(()));
}

#[test]
fn writes_land_at_the_offset_or_at_the_end() {
    let mut file = FileInner::new(OpenFlags::WRONLY());
    file.seek(SeekFrom::Start(4), 0);
    let at = file.write_offset(100);
    assert_eq!(at, 4);
    file.write_done(at, 6);
    assert_eq!(file.offset(), 10);
    let mut app = FileInner::new(OpenFlags::from_bits_truncate(1 | 0x400));
    let at = app.write_offset(100);
    assert_eq!(at, 100);
    app.write_done(at, 8);
    assert_eq!(app.offset(), 108);
}

#[test]
fn set_flags_changes_only_status_flags() {
    let mut file = FileInner::new(OpenFlags::from_bits_truncate(2 | 0x40 | 0x800));
    file.read_done(5);
    file.set_flags(OpenFlags::from_bits_truncate(1 | 0x400 | 0x80000 | 0x200));
    assert_eq!(file.flags().bits(), 2 | 0x40 | 0x400 | 0x80000);
    assert_eq!(file.offset(), 5);
    assert!(file.flags().readable() && file.flags().writable());
}

#[test]
fn duplicate_keeps_offset_and_flags() {
    let mut file = FileInner::new(OpenFlags::RDWR());
    file.read_done(9);
    let copy = file.clone();
    assert_eq!(copy.offset(), 9);
    assert_eq!(copy.flags(), file.flags());
}

#[test]
fn vmo_plans_by_file_kind() {
    assert_eq!(get_vmo_plan(FileKind::File, false), Ok(VmoPlan::ReadIntoPaged));
    assert_eq!(get_vmo_plan(FileKind::CharDevice, true), Ok(VmoPlan::FrameBuffer));
    assert_eq!(get_vmo_plan(FileKind::CharDevice, false), Err(LxError::ENOSYS));
    assert_eq!(get_vmo_plan(FileKind::Dir, true), Err(LxError::ENOSYS));
    assert_eq!(get_vmo_plan(FileKind::BlockDevice, false), Err(LxError::ENOSYS));
}
