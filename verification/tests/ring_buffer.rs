use zcore_asynccall::asynccall::{
    AsyncCallBuffer, AsyncCallState, CompletionRingEntry, PendingReason, ASYNC_CALL_INFO_USER_SIZE,
    COMP_CAPACITY_MASK_OFFSET, COMP_CAPACITY_OFFSET, COMP_RING_HEAD_OFFSET, COMP_RING_TAIL_OFFSET,
    REQ_CAPACITY_MASK_OFFSET, REQ_CAPACITY_OFFSET, REQ_ENTRIES_OFFSET, REQ_RING_HEAD_OFFSET,
    REQ_RING_TAIL_OFFSET,
};
use zcore_asynccall::asynccall::{decode_completion_entry, decode_request_entry, read_u32_at, write_u32_at};
use zcore_asynccall::error::LxError;

fn set_flags(buf: &mut AsyncCallBuffer, idx: u32, state: AsyncCallState) {
    buf.req_entry_at_mut(idx).flags = state.as_u32();
}

#[test]
fn new_rejects_capacities_out_of_range() {
    assert_eq!(AsyncCallBuffer::new(0, 4).err(), Some(LxError::EINVAL));
    assert_eq!(AsyncCallBuffer::new(4, 0).err(), Some(LxError::EINVAL));
    assert_eq!(AsyncCallBuffer::new(32769, 4).err(), Some(LxError::EINVAL));
    assert_eq!(AsyncCallBuffer::new(4, 32769).err(), Some(LxError::EINVAL));
    assert!(AsyncCallBuffer::new(32768, 32768).is_ok());
}

#[test]
fn new_rounds_capacities_up_to_powers_of_two() {
    let buf = AsyncCallBuffer::new(3, 5).unwrap();
    assert_eq!(buf.req_capacity, 4);
    assert_eq!(buf.comp_capacity, 8);
    let buf = AsyncCallBuffer::new(1, 1).unwrap();
    assert_eq!(buf.req_capacity, 1);
    assert_eq!(buf.comp_capacity, 1);
    let buf = AsyncCallBuffer::new(32768, 16385).unwrap();
    assert_eq!(buf.req_capacity, 32768);
    assert_eq!(buf.comp_capacity, 32768);
}

#[test]
fn new_buffer_sizes() {
    assert_eq!(AsyncCallBuffer::new(3, 5).unwrap().size(), 640);
    assert_eq!(AsyncCallBuffer::new(1, 1).unwrap().size(), 392);
    assert_eq!(AsyncCallBuffer::new(32768, 32768).unwrap().size(), 2359616);
}

#[test]
fn new_buffer_starts_empty() {
    let buf = AsyncCallBuffer::new(4, 4).unwrap();
    assert_eq!(buf.read_req_ring_head(), 0);
    assert_eq!(buf.read_req_ring_tail(), 0);
    assert_eq!(buf.read_comp_ring_head(), 0);
    assert_eq!(buf.read_comp_ring_tail(), 0);
    for i in 0..4 {
        let e = buf.req_entry_at(i);
        assert_eq!(e.flags, 0);
        assert_eq!(e.user_data, 0);
        assert_eq!(e.syscall_id, 0);
    }
}

#[test]
fn fill_user_info_gives_the_layout() {
    let buf = AsyncCallBuffer::new(4, 8).unwrap();
    let info = buf.fill_user_info(0x1000);
    assert_eq!(info.user_buf_ptr, 0x1000);
    assert_eq!(info.buf_size, 640);
    assert_eq!(info.req_off.head, REQ_RING_HEAD_OFFSET);
    assert_eq!(info.req_off.tail, REQ_RING_TAIL_OFFSET);
    assert_eq!(info.req_off.capacity, REQ_CAPACITY_OFFSET);
    assert_eq!(info.req_off.capacity_mask, REQ_CAPACITY_MASK_OFFSET);
    assert_eq!(info.req_off.entries as usize, REQ_ENTRIES_OFFSET);
    assert_eq!(info.comp_off.head, COMP_RING_HEAD_OFFSET);
    assert_eq!(info.comp_off.tail, COMP_RING_TAIL_OFFSET);
    assert_eq!(info.comp_off.capacity, COMP_CAPACITY_OFFSET);
    assert_eq!(info.comp_off.capacity_mask, COMP_CAPACITY_MASK_OFFSET);
    assert_eq!(info.comp_off.entries, 576);
    assert_eq!((info.req_off.head, info.req_off.tail), (0, 64));
    assert_eq!((info.comp_off.head, info.comp_off.tail), (128, 192));
    assert_eq!((info.req_off.capacity, info.comp_off.capacity), (256, 264));
    assert_eq!(info.req_off.entries, 320);
}

#[test]
fn info_user_size_is_that_of_the_user_struct() {
    assert_eq!(ASYNC_CALL_INFO_USER_SIZE, 2 * std::mem::size_of::<usize>() + 2 * 5 * 4);
}

#[test]
fn request_count_within_and_beyond_capacity() {
    let mut buf = AsyncCallBuffer::new(4, 4).unwrap();
    buf.write_req_ring_tail(3);
    assert_eq!(buf.request_count(0), Ok(3));
    assert_eq!(buf.request_count(3), Ok(0));
    buf.write_req_ring_tail(5);
    assert_eq!(buf.request_count(0), Err(LxError::ENOBUFS));
    assert_eq!(buf.request_count(1), Ok(4));
    buf.write_req_ring_tail(2);
    assert_eq!(buf.request_count(u32::MAX), Ok(3));
}

#[test]
fn completion_count_within_and_beyond_capacity() {
    let mut buf = AsyncCallBuffer::new(4, 2).unwrap();
    assert_eq!(buf.completion_count(2), Ok(2));
    assert_eq!(buf.completion_count(3), Err(LxError::ENOBUFS));
    buf.write_comp_ring_head(u32::MAX);
    assert_eq!(buf.completion_count(1), Ok(2));
}

#[test]
fn entries_are_found_by_counter_modulo_capacity() {
    let mut buf = AsyncCallBuffer::new(4, 2).unwrap();
    buf.req_entry_at_mut(6).user_data = 42;
    assert_eq!(buf.req_entry_at(2).user_data, 42);
    assert_eq!(buf.req_entry_at(u32::MAX - 1).user_data, 42);
    *buf.comp_entry_at(3) = CompletionRingEntry::new(9, Ok(1));
    assert_eq!(buf.comp_entry_at(1).user_data(), 9);
}

#[test]
fn submit_retires_the_done_run_at_the_head() {
    let mut buf = AsyncCallBuffer::new(4, 4).unwrap();
    set_flags(&mut buf, 0, AsyncCallState::Done);
    set_flags(&mut buf, 1, AsyncCallState::Done);
    set_flags(&mut buf, 2, AsyncCallState::Init);
    set_flags(&mut buf, 3, AsyncCallState::Done);
    buf.submit_req_ring();
    assert_eq!(buf.read_req_ring_head(), 2);
    assert_eq!(buf.req_entry_at(0).flags, AsyncCallState::Null.as_u32());
    assert_eq!(buf.req_entry_at(1).flags, AsyncCallState::Null.as_u32());
    assert_eq!(buf.req_entry_at(2).flags, AsyncCallState::Init.as_u32());
    assert_eq!(buf.req_entry_at(3).flags, AsyncCallState::Done.as_u32());
}

#[test]
fn submit_stops_at_once_when_the_head_is_not_done() {
    let mut buf = AsyncCallBuffer::new(4, 4).unwrap();
    set_flags(&mut buf, 1, AsyncCallState::Done);
    buf.submit_req_ring();
    assert_eq!(buf.read_req_ring_head(), 0);
    assert_eq!(buf.req_entry_at(1).flags, AsyncCallState::Done.as_u32());
}

#[test]
fn submit_stops_after_a_full_turn() {
    let mut buf = AsyncCallBuffer::new(4, 4).unwrap();
    for i in 0..4 {
        set_flags(&mut buf, i, AsyncCallState::Done);
    }
    buf.submit_req_ring();
    assert_eq!(buf.read_req_ring_head(), 4);
    for i in 0..4 {
        assert_eq!(buf.req_entry_at(i).flags, 0);
    }
}

#[test]
fn submit_across_the_counter_wrap() {
    let mut buf = AsyncCallBuffer::new(4, 4).unwrap();
    buf.write_req_ring_head(u32::MAX);
    set_flags(&mut buf, 3, AsyncCallState::Done);
    set_flags(&mut buf, 0, AsyncCallState::Done);
    set_flags(&mut buf, 1, AsyncCallState::Working);
    buf.submit_req_ring();
    assert_eq!(buf.read_req_ring_head(), 1);
    assert_eq!(buf.req_entry_at(3).flags, 0);
    assert_eq!(buf.req_entry_at(0).flags, 0);
    assert_eq!(buf.req_entry_at(1).flags, AsyncCallState::Working.as_u32());
}

#[test]
fn complete_writes_the_completion_and_retires_the_request() {
    let mut buf = AsyncCallBuffer::new(2, 2).unwrap();
    {
        let e = buf.req_entry_at_mut(0);
        e.user_data = 7;
        e.flags = AsyncCallState::Init.as_u32();
    }
    buf.write_req_ring_tail(1);
    assert!(buf.request_ready(0));
    assert!(!buf.request_ready(1));
    let tail = buf.comp_ring_available().unwrap();
    assert_eq!(tail, 0);
    buf.complete(0, Ok(5), tail);
    assert_eq!(buf.read_comp_ring_tail(), 1);
    assert_eq!(buf.comp_entry_at(0).user_data(), 7);
    assert_eq!(buf.comp_entry_at(0).result(), 5);
    assert_eq!(buf.read_req_ring_head(), 1);
    assert_eq!(buf.req_entry_at(0).flags, AsyncCallState::Null.as_u32());
}

#[test]
fn complete_out_of_order_waits_for_the_head() {
    let mut buf = AsyncCallBuffer::new(2, 2).unwrap();
    set_flags(&mut buf, 0, AsyncCallState::Init);
    set_flags(&mut buf, 1, AsyncCallState::Init);
    buf.req_entry_at_mut(1).user_data = 11;
    buf.complete(1, Err(LxError::EBADF), 0);
    assert_eq!(buf.comp_entry_at(0).user_data(), 11);
    assert_eq!(buf.comp_entry_at(0).result(), -9);
    assert_eq!(buf.read_req_ring_head(), 0);
    assert_eq!(buf.req_entry_at(1).flags, AsyncCallState::Done.as_u32());
    buf.complete(0, Ok(0), 1);
    assert_eq!(buf.read_req_ring_head(), 2);
    assert_eq!(buf.req_entry_at(0).flags, 0);
    assert_eq!(buf.req_entry_at(1).flags, 0);
    assert_eq!(buf.read_comp_ring_tail(), 2);
}

#[test]
fn comp_ring_available_until_full() {
    let mut buf = AsyncCallBuffer::new(1, 2).unwrap();
    assert_eq!(buf.comp_ring_available(), Some(0));
    buf.write_comp_ring_tail(1);
    assert_eq!(buf.comp_ring_available(), Some(1));
    buf.write_comp_ring_tail(2);
    assert_eq!(buf.comp_ring_available(), None);
    buf.write_comp_ring_head(1);
    assert_eq!(buf.comp_ring_available(), Some(2));
}

#[test]
fn completion_entry_encodes_results() {
    let ok = CompletionRingEntry::new(3, Ok(17));
    assert_eq!(ok.user_data(), 3);
    assert_eq!(ok.result(), 17);
    let err = CompletionRingEntry::new(4, Err(LxError::EINVAL));
    assert_eq!(err.user_data(), 4);
    assert_eq!(err.result(), -22);
    let wide = CompletionRingEntry::new(5, Ok((1usize << 32) + 5));
    assert_eq!(wide.result(), 5);
}

#[test]
fn state_numbers_round_trip() {
    for s in [AsyncCallState::Null, AsyncCallState::Init, AsyncCallState::Working, AsyncCallState::Done] {
        assert_eq!(AsyncCallState::try_from_u32(s.as_u32()), Ok(s));
    }
    assert_eq!(AsyncCallState::Done.as_u32(), 3);
    assert_eq!(AsyncCallState::try_from_u32(4), Err(4));
    for r in [
        PendingReason::RequestNotReady,
        PendingReason::SyscallPending,
        PendingReason::CompBufferFull,
        PendingReason::Invalid,
    ] {
        assert_eq!(PendingReason::try_from_usize(r.as_usize()), Ok(r));
    }
    assert_eq!(PendingReason::CompBufferFull.as_usize(), 2);
    assert_eq!(PendingReason::try_from_usize(7), Err(7));
}

fn put_u32(mem: &mut [u8], off: usize, x: u32) {
    mem[off..off + 4].copy_from_slice(&x.to_le_bytes());
}

fn put_u64(mem: &mut [u8], off: usize, x: u64) {
    mem[off..off + 8].copy_from_slice(&x.to_le_bytes());
}

#[test]
fn capacities_and_masks_in_the_header() {
    let mut buf = AsyncCallBuffer::new(3, 9).unwrap();
    assert_eq!(buf.req_capacity(), 4);
    assert_eq!(buf.comp_capacity(), 16);
    let mut mem = vec![0u8; buf.size()];
    buf.store_shared(&mut mem);
    assert_eq!(read_u32_at(&mem, 256), 4);
    assert_eq!(read_u32_at(&mem, 260), 3);
    assert_eq!(read_u32_at(&mem, 264), 16);
    assert_eq!(read_u32_at(&mem, 268), 15);
}

#[test]
fn bytes_read_and_written_little_endian() {
    let mut mem = vec![0u8; 8];
    write_u32_at(&mut mem, 2, 0x0403_0201);
    assert_eq!(mem, vec![0, 0, 1, 2, 3, 4, 0, 0]);
    assert_eq!(read_u32_at(&mem, 2), 0x0403_0201);
    let mut e = vec![0u8; 64];
    put_u64(&mut e, 0, 39);
    put_u64(&mut e, 8, 1);
    put_u64(&mut e, 48, 6);
    put_u32(&mut e, 56, 1);
    put_u32(&mut e, 60, 77);
    let r = decode_request_entry(&e, 0);
    assert_eq!((r.syscall_id, r.arg0, r.arg5, r.flags, r.user_data), (39, 1, 6, 1, 77));
    let mut c = vec![0u8; 8];
    put_u32(&mut c, 0, 5);
    put_u32(&mut c, 4, (-22i32) as u32);
    let d = decode_completion_entry(&c, 0);
    assert_eq!((d.user_data(), d.result()), (5, -22));
}

#[test]
fn requests_written_by_the_user_are_served_through_the_shared_region() {
    let mut buf = AsyncCallBuffer::new(2, 2).unwrap();
    let mut mem = vec![0u8; buf.size()];
    buf.store_shared(&mut mem);
    // the user writes a request in slot 1 and moves the tail past it
    let e = 320 + 64;
    put_u64(&mut mem, e, 39);
    put_u32(&mut mem, e + 56, AsyncCallState::Init.as_u32());
    put_u32(&mut mem, e + 60, 7);
    put_u32(&mut mem, 0, 1);
    put_u32(&mut mem, 64, 2);
    buf.load_shared(&mem);
    assert_eq!(buf.read_req_ring_head(), 1);
    assert_eq!(buf.request_count(buf.read_req_ring_head()), Ok(1));
    assert!(buf.request_ready(1));
    assert_eq!(buf.req_entry_at(1).syscall_id, 39);
    let tail = buf.comp_ring_available().unwrap();
    buf.complete(1, Ok(1234), tail);
    buf.store_shared(&mut mem);
    // the user sees the completion, the new tail and head, and its own fields kept
    let comp = 320 + 64 * 2;
    assert_eq!(read_u32_at(&mem, comp), 7);
    assert_eq!(read_u32_at(&mem, comp + 4), 1234);
    assert_eq!(read_u32_at(&mem, 192), 1);
    assert_eq!(read_u32_at(&mem, 0), 2);
    assert_eq!(read_u32_at(&mem, 64), 2);
    assert_eq!(read_u32_at(&mem, e + 56), AsyncCallState::Null.as_u32());
    assert_eq!(read_u32_at(&mem, e + 60), 7);
    // loading again gives back the same state
    let before = (buf.read_req_ring_head(), buf.read_comp_ring_tail());
    buf.load_shared(&mem);
    assert_eq!((buf.read_req_ring_head(), buf.read_comp_ring_tail()), before);
    assert_eq!(buf.comp_entry_at(0).result(), 1234);
}

#[test]
fn completion_never_lands_on_an_unconsumed_one() {
    let mut buf = AsyncCallBuffer::new(4, 2).unwrap();
    for id in 0..2u32 {
        set_flags(&mut buf, id, AsyncCallState::Init);
        buf.req_entry_at_mut(id).user_data = 10 + id;
    }
    let t0 = buf.comp_ring_available().unwrap();
    buf.complete(0, Ok(0), t0);
    let t1 = buf.comp_ring_available().unwrap();
    buf.complete(1, Ok(1), t1);
    assert_eq!(buf.comp_ring_available(), None);
    assert_eq!(buf.comp_entry_at(0).user_data(), 10);
    assert_eq!(buf.comp_entry_at(1).user_data(), 11);
}

#[test]
fn a_submission_made_meanwhile_survives_the_write_back() {
    let mut buf = AsyncCallBuffer::new(2, 2).unwrap();
    let mut mem = vec![0u8; buf.size()];
    buf.store_shared(&mut mem);
    // the user submits slot 0; the kernel loads it
    put_u32(&mut mem, 320 + 56, AsyncCallState::Init.as_u32());
    put_u32(&mut mem, 320 + 60, 3);
    put_u32(&mut mem, 64, 1);
    buf.load_shared(&mem);
    // while the kernel works on its copy, the user submits slot 1
    put_u32(&mut mem, 320 + 64 + 56, AsyncCallState::Init.as_u32());
    put_u32(&mut mem, 64, 2);
    let tail = buf.comp_ring_available().unwrap();
    buf.complete(0, Ok(9), tail);
    buf.store_shared(&mut mem);
    // the kernel's own change is written, the user's submission is kept
    assert_eq!(read_u32_at(&mem, 320 + 56), AsyncCallState::Null.as_u32());
    assert_eq!(read_u32_at(&mem, 320 + 64 + 56), AsyncCallState::Init.as_u32());
    assert_eq!(read_u32_at(&mem, 64), 2);
    assert_eq!(read_u32_at(&mem, 0), 1);
    buf.load_shared(&mem);
    assert!(buf.request_ready(1));
}

#[test]
fn completion_tail_wraps() {
    let mut buf = AsyncCallBuffer::new(1, 2).unwrap();
    set_flags(&mut buf, 0, AsyncCallState::Init);
    buf.complete(0, Ok(4), u32::MAX);
    assert_eq!(buf.read_comp_ring_tail(), 0);
    assert_eq!(buf.comp_entry_at(u32::MAX).result(), 4);
    assert_eq!(buf.comp_entry_at(1).result(), 4);
}

#[test]
fn entries_are_stored_before_the_counters() {
    let mut buf = AsyncCallBuffer::new(2, 2).unwrap();
    let mut mem = vec![0u8; buf.size()];
    buf.store_shared(&mut mem);
    set_flags(&mut buf, 0, AsyncCallState::Init);
    let tail = buf.comp_ring_available().unwrap();
    buf.complete(0, Ok(3), tail);
    // the entries go first, and leave the counters as they were
    buf.store_entries(&mut mem);
    assert_eq!(read_u32_at(&mem, 320 + 56), AsyncCallState::Null.as_u32());
    assert_eq!(read_u32_at(&mem, 320 + 2 * 64 + 4), 3);
    assert_eq!(read_u32_at(&mem, 0), 0);
    assert_eq!(read_u32_at(&mem, 192), 0);
    // then the counters, which leave the entries as they were
    buf.store_counters(&mut mem);
    assert_eq!(read_u32_at(&mem, 0), 1);
    assert_eq!(read_u32_at(&mem, 192), 1);
    assert_eq!(read_u32_at(&mem, 320 + 2 * 64 + 4), 3);
}
