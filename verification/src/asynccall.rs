//! The shared buffer of the asynchronous system-call interface.
//!
//! A user process submits system calls on a request ring and collects their
//! results on a completion ring. Both rings live in one region of memory
//! that the kernel maps into the process, laid out as `fill_user_info` tells
//! it; their heads and tails are free-running `u32` counters, and an entry's
//! slot is its counter modulo the ring's capacity, which is a power of two.
//!
//! `AsyncCallBuffer` is the kernel's copy of that region's contents. The
//! kernel reads the region into it with `load_shared`, decides and updates
//! on the copy, and writes back with `store_shared` what it owns (the
//! request ring's head, the completion ring's tail, the capacities and the
//! completion entries) and the request `flags` that it has changed itself
//! (`Done` on completion, `Null` on retiring). The user process writes the
//! request ring's tail, the completion ring's head, the request entries, and
//! the `flags` with which it submits a request (`Init`); these the kernel
//! only reads, so a request submitted while the kernel works on its copy is
//! not undone.

use crate::cache::{roundup_cache, spec_roundup_cache, AlignCacheLine};
use crate::error::{LxError, LxResult};
use vstd::bytes::{spec_u32_from_le_bytes, spec_u32_to_le_bytes, spec_u64_from_le_bytes};
use vstd::prelude::*;

verus! {

/// The largest number of entries that either ring may be asked to hold.
pub const MAX_ASYNC_CALL_ENTRY_NUM: usize = 32768;

/// The state of an asynchronous call request.
#[derive(Clone, Copy, Debug, PartialEq, Eq, Structural)]
pub enum AsyncCallState {
    /// Invalid state
    Null,
    /// A request is submitted by the user
    Init,
    /// A request is being handled by the kernel
    Working,
    /// A request is done and its result is on the completion ring
    Done,
}

impl AsyncCallState {
    /// The number that stands for the state in a request entry's `flags`.
    pub open spec fn value(self) -> u32 {
        match self {
            AsyncCallState::Null => 0,
            AsyncCallState::Init => 1,
            AsyncCallState::Working => 2,
            AsyncCallState::Done => 3,
        }
    }

    /// The number that stands for the state in a request entry's `flags`.
    pub fn as_u32(self) -> (r: u32)
        ensures
            r == self.value(),
    {
        match self {
            AsyncCallState::Null => 0,
            AsyncCallState::Init => 1,
            AsyncCallState::Working => 2,
            AsyncCallState::Done => 3,
        }
    }

    /// The state that `v` stands for; `Err(v)` where it stands for none.
    pub fn try_from_u32(v: u32) -> (r: Result<AsyncCallState, u32>)
        ensures
            match r {
                Ok(s) => s.value() == v,
                Err(e) => e == v && v > 3,
            },
    {
        match v {
            0 => Ok(AsyncCallState::Null),
            1 => Ok(AsyncCallState::Init),
            2 => Ok(AsyncCallState::Working),
            3 => Ok(AsyncCallState::Done),
            _ => Err(v),
        }
    }
}

/// The reason why a worker coroutine is pending.
#[derive(Clone, Copy, Debug, PartialEq, Eq, Structural)]
pub enum PendingReason {
    /// The state of the request entry is not `Init`
    RequestNotReady,
    /// The system call is pending
    SyscallPending,
    /// The completion ring is full
    CompBufferFull,
    /// Unknown reason
    Invalid,
}

impl PendingReason {
    /// The number that stands for the reason.
    pub open spec fn value(self) -> usize {
        match self {
            PendingReason::RequestNotReady => 0,
            PendingReason::SyscallPending => 1,
            PendingReason::CompBufferFull => 2,
            PendingReason::Invalid => 3,
        }
    }

    /// The number that stands for the reason.
    pub fn as_usize(self) -> (r: usize)
        ensures
            r == self.value(),
    {
        match self {
            PendingReason::RequestNotReady => 0,
            PendingReason::SyscallPending => 1,
            PendingReason::CompBufferFull => 2,
            PendingReason::Invalid => 3,
        }
    }

    /// The reason that `v` stands for; `Err(v)` where it stands for none.
    pub fn try_from_usize(v: usize) -> (r: Result<PendingReason, usize>)
        ensures
            match r {
                Ok(s) => s.value() == v,
                Err(e) => e == v && v > 3,
            },
    {
        match v {
            0 => Ok(PendingReason::RequestNotReady),
            1 => Ok(PendingReason::SyscallPending),
            2 => Ok(PendingReason::CompBufferFull),
            3 => Ok(PendingReason::Invalid),
            _ => Err(v),
        }
    }
}

/// A system call request, as the user writes it on the request ring.
#[derive(Clone, Copy, Debug)]
pub struct RequestRingEntry {
    pub syscall_id: u64,
    pub arg0: u64,
    pub arg1: u64,
    pub arg2: u64,
    pub arg3: u64,
    pub arg4: u64,
    pub arg5: u64,
    /// The `AsyncCallState` of the request, as its number.
    pub flags: u32,
    /// A value of the user's that the completion carries back.
    pub user_data: u32,
}

impl RequestRingEntry {
    /// An entry whose every field is zero, as in freshly allocated memory.
    pub open spec fn spec_zeroed() -> Self {
        RequestRingEntry {
            syscall_id: 0,
            arg0: 0,
            arg1: 0,
            arg2: 0,
            arg3: 0,
            arg4: 0,
            arg5: 0,
            flags: 0,
            user_data: 0,
        }
    }

    /// An entry whose every field is zero, as in freshly allocated memory.
    pub fn zeroed() -> (r: Self)
        ensures
            r == Self::spec_zeroed(),
    {
        RequestRingEntry {
            syscall_id: 0,
            arg0: 0,
            arg1: 0,
            arg2: 0,
            arg3: 0,
            arg4: 0,
            arg5: 0,
            flags: 0,
            user_data: 0,
        }
    }

    /// The same entry with `flags` replaced.
    pub open spec fn with_flags(self, flags: u32) -> Self {
        RequestRingEntry { flags, ..self }
    }
}

/// The result of a request, as the kernel writes it on the completion ring.
#[derive(Clone, Copy, Debug)]
pub struct CompletionRingEntry {
    user_data: u32,
    result: i32,
}

/// The number that a completion carries for the result of a call: the value
/// itself for success, the negated error number for failure.
pub open spec fn spec_result_code(res: LxResult<usize>) -> i32 {
    match res {
        Ok(code) => code as i32,
        Err(err) => (-err.code()) as i32,
    }
}

impl CompletionRingEntry {
    /// The `user_data` of the request that this entry completes.
    pub closed spec fn spec_user_data(self) -> u32 {
        self.user_data
    }

    /// The result code of this entry.
    pub closed spec fn spec_result(self) -> i32 {
        self.result
    }

    /// An entry whose every field is zero, as in freshly allocated memory.
    pub open spec fn spec_zeroed() -> Self {
        Self::spec_new(0, 0)
    }

    /// The entry that holds `user_data` and `result`.
    pub closed spec fn spec_new(user_data: u32, result: i32) -> Self {
        CompletionRingEntry { user_data, result }
    }

    /// The completion of the request whose `user_data` is given, with the
    /// result `res` encoded as `spec_result_code` says.
    pub fn new(user_data: u32, res: LxResult<usize>) -> (r: Self)
        ensures
            r == Self::spec_new(user_data, spec_result_code(res)),
            r.spec_user_data() == user_data,
            r.spec_result() == spec_result_code(res),
    {
        let result: i32 = match res {
            Ok(code) => code as i32,
            Err(err) => -err.errno(),
        };
        CompletionRingEntry { user_data, result }
    }

    fn zeroed() -> (r: Self)
        ensures
            r == Self::spec_zeroed(),
    {
        CompletionRingEntry { user_data: 0, result: 0 }
    }

    /// The `user_data` of the request that this entry completes.
    pub fn user_data(&self) -> (r: u32)
        ensures
            r == self.spec_user_data(),
    {
        self.user_data
    }

    /// The result code of this entry.
    pub fn result(&self) -> (r: i32)
        ensures
            r == self.spec_result(),
    {
        self.result
    }
}


/// Byte offset of the request ring's head counter in the shared buffer.
pub const REQ_RING_HEAD_OFFSET: u32 = 0;
/// Byte offset of the request ring's tail counter in the shared buffer.
pub const REQ_RING_TAIL_OFFSET: u32 = 64;
/// Byte offset of the completion ring's head counter in the shared buffer.
pub const COMP_RING_HEAD_OFFSET: u32 = 128;
/// Byte offset of the completion ring's tail counter in the shared buffer.
pub const COMP_RING_TAIL_OFFSET: u32 = 192;
/// Byte offset of the request ring's capacity in the shared buffer.
pub const REQ_CAPACITY_OFFSET: u32 = 256;
/// Byte offset of the request ring's capacity mask in the shared buffer.
pub const REQ_CAPACITY_MASK_OFFSET: u32 = 260;
/// Byte offset of the completion ring's capacity in the shared buffer.
pub const COMP_CAPACITY_OFFSET: u32 = 264;
/// Byte offset of the completion ring's capacity mask in the shared buffer.
pub const COMP_CAPACITY_MASK_OFFSET: u32 = 268;
/// Byte offset of the first request entry in the shared buffer: the header
/// above, rounded up to a cache line.
pub const REQ_ENTRIES_OFFSET: usize = 320;
/// Size in bytes of a `RequestRingEntry` in the shared buffer.
pub const REQUEST_ENTRY_SIZE: usize = 64;
/// Size in bytes of a `CompletionRingEntry` in the shared buffer.
pub const COMPLETION_ENTRY_SIZE: usize = 8;

/// Whether `c` may be the capacity of a ring: a power of two from 1 to
/// `MAX_ASYNC_CALL_ENTRY_NUM`.
pub open spec fn valid_capacity(c: u32) -> bool {
    c == 1 || c == 2 || c == 4 || c == 8 || c == 16 || c == 32 || c == 64 || c == 128
        || c == 256 || c == 512 || c == 1024 || c == 2048 || c == 4096 || c == 8192
        || c == 16384 || c == 32768
}

/// Whether `r` is the smallest power of two that is at least `x`.
pub open spec fn is_next_power_of_two(x: int, r: u32) -> bool {
    &&& valid_capacity(r)
    &&& x <= r
    &&& (r == 1 || r / 2 < x)
}

/// Byte offset of the first completion entry in a buffer whose request ring
/// holds `req_capacity` entries.
pub open spec fn spec_comp_entries_offset(req_capacity: int) -> int {
    spec_roundup_cache(REQ_ENTRIES_OFFSET + REQUEST_ENTRY_SIZE * req_capacity)
}

/// Size in bytes of a buffer whose rings hold `req_capacity` and
/// `comp_capacity` entries.
pub open spec fn spec_buffer_size(req_capacity: int, comp_capacity: int) -> int {
    spec_comp_entries_offset(req_capacity) + COMPLETION_ENTRY_SIZE * comp_capacity
}

/// The number of entries between a head and a tail counter: the tail minus
/// the head, modulo 2^32.
pub open spec fn ring_count(head: u32, tail: u32) -> int {
    if head <= tail {
        tail - head
    } else {
        tail - head + 0x1_0000_0000
    }
}

/// The counter `k` steps past `x`, modulo 2^32.
pub open spec fn ring_advance(x: u32, k: int) -> u32 {
    ((x + k) % 0x1_0000_0000) as u32
}

/// Whether slot `s` of a ring of capacity `cap` is among the `k` slots that
/// follow counter `head`, itself first.
pub open spec fn slot_in_run(head: int, k: int, cap: int, s: int) -> bool {
    (s - head) % cap < k
}

/// The `x & (c - 1)` that picks a slot is `x % c`.
proof fn lemma_capacity_mask(x: u32, c: u32)
    requires
        valid_capacity(c),
    ensures
        x & ((c - 1) as u32) == x % c,
{
    let n: nat = capacity_log2(c);
    vstd::arithmetic::power2::lemma2_to64();
    assert(vstd::arithmetic::power2::pow2(n) == c);
    vstd::bits::lemma_u32_low_bits_mask_is_mod(x, n);
}

/// The exponent of a valid capacity.
pub open spec fn capacity_log2(c: u32) -> nat {
    if c == 1 { 0 } else if c == 2 { 1 } else if c == 4 { 2 } else if c == 8 { 3 }
    else if c == 16 { 4 } else if c == 32 { 5 } else if c == 64 { 6 } else if c == 128 { 7 }
    else if c == 256 { 8 } else if c == 512 { 9 } else if c == 1024 { 10 } else if c == 2048 { 11 }
    else if c == 4096 { 12 } else if c == 8192 { 13 } else if c == 16384 { 14 } else { 15 }
}

/// A counter taken modulo 2^32 lands on the same slot.
proof fn lemma_wrap_slot(x: int, c: u32)
    requires
        valid_capacity(c),
        0 <= x,
    ensures
        (x % 0x1_0000_0000) % (c as int) == x % (c as int),
{
    let q: int = 0x1_0000_0000int / (c as int);
    assert((c as int) * q == 0x1_0000_0000int) by (nonlinear_arith)
        requires
            q == 0x1_0000_0000int / (c as int),
            valid_capacity(c),
    ;
    vstd::arithmetic::div_mod::lemma_mod_mod(x, c as int, q);
}

/// Slot `s` is `j` steps past counter `h` exactly when `s` is the slot of
/// `h + j`.
proof fn lemma_slot_offset(h: int, j: int, cap: int, s: int)
    requires
        cap > 0,
        0 <= s < cap,
        0 <= j < cap,
    ensures
        ((s - h) % cap == j) <==> (s == (h + j) % cap),
{
    if (s - h) % cap == j {
        vstd::arithmetic::div_mod::lemma_add_mod_noop_right(h, s - h, cap);
        vstd::arithmetic::div_mod::lemma_small_mod(s as nat, cap as nat);
    }
    if s == (h + j) % cap {
        vstd::arithmetic::div_mod::lemma_sub_mod_noop_right(0, 0, cap);
        vstd::arithmetic::div_mod::lemma_add_mod_noop(h + j, -h, cap);
        vstd::arithmetic::div_mod::lemma_mod_twice(-h, cap);
        vstd::arithmetic::div_mod::lemma_small_mod(j as nat, cap as nat);
        vstd::arithmetic::div_mod::lemma_add_mod_noop((h + j) % cap, -h, cap);
        vstd::arithmetic::div_mod::lemma_mod_twice(h + j, cap);
    }
}


/// Where the fields of one ring lie in the shared buffer, as byte offsets.
#[derive(Clone, Copy, Debug)]
pub struct RingOffsets {
    pub head: u32,
    pub tail: u32,
    pub capacity: u32,
    pub capacity_mask: u32,
    pub entries: u32,
}

/// What the user process is told of the shared buffer.
#[derive(Clone, Copy, Debug)]
pub struct AsyncCallInfoUser {
    pub user_buf_ptr: usize,
    pub buf_size: usize,
    pub req_off: RingOffsets,
    pub comp_off: RingOffsets,
}

/// Size in bytes of `AsyncCallInfoUser` as the user process lays it out, on
/// the 64-bit targets that the kernel runs on.
pub const ASYNC_CALL_INFO_USER_SIZE: usize = 56;

struct Ring {
    head: AlignCacheLine<u32>,
    tail: AlignCacheLine<u32>,
}

/// The kernel's copy of the contents of the shared region.
struct AsyncCallBufferLayout {
    req_ring: Ring,
    comp_ring: Ring,
    req_capacity: u32,
    req_capacity_mask: u32,
    comp_capacity: u32,
    comp_capacity_mask: u32,
    req_entries: Vec<RequestRingEntry>,
    comp_entries: Vec<CompletionRingEntry>,
}

/// The kernel's copy of the region shared with a user process, with the
/// capacities and masks that the kernel keeps for itself.
pub struct AsyncCallBuffer {
    /// Capacity of the request ring
    pub req_capacity: u32,
    /// Capacity of the completion ring
    pub comp_capacity: u32,
    req_capacity_mask: u32,
    comp_capacity_mask: u32,
    buf_size: usize,
    shared_flags: Vec<u32>,
    layout: AsyncCallBufferLayout,
}

/// The state of an `AsyncCallBuffer`.
pub struct AsyncCallBufferView {
    pub req_capacity: u32,
    pub comp_capacity: u32,
    /// The kernel's mask of the request ring's slots.
    pub req_capacity_mask: u32,
    /// The kernel's mask of the completion ring's slots.
    pub comp_capacity_mask: u32,
    /// The request ring's capacity as the shared header holds it.
    pub header_req_capacity: u32,
    /// The request ring's mask as the shared header holds it.
    pub header_req_capacity_mask: u32,
    /// The completion ring's capacity as the shared header holds it.
    pub header_comp_capacity: u32,
    /// The completion ring's mask as the shared header holds it.
    pub header_comp_capacity_mask: u32,
    pub req_head: u32,
    pub req_tail: u32,
    pub comp_head: u32,
    pub comp_tail: u32,
    /// The request entries, by slot.
    pub req_entries: Seq<RequestRingEntry>,
    /// The completion entries, by slot.
    pub comp_entries: Seq<CompletionRingEntry>,
    pub buf_size: usize,
    /// The `flags` of each request entry as the shared region held them
    /// when the kernel last read or wrote them there: a flag that differs
    /// from it is one that the kernel has changed since.
    pub shared_flags: Seq<u32>,
}

/// What holds of the state of every well-formed buffer: the capacities are
/// powers of two within range, the masks are one less, the shared header
/// holds the same capacities and masks, each ring has one entry per slot,
/// and the size is that of the layout.
pub open spec fn view_wf(v: AsyncCallBufferView) -> bool {
    &&& valid_capacity(v.req_capacity)
    &&& valid_capacity(v.comp_capacity)
    &&& v.req_capacity_mask == v.req_capacity - 1
    &&& v.comp_capacity_mask == v.comp_capacity - 1
    &&& v.header_req_capacity == v.req_capacity
    &&& v.header_req_capacity_mask == v.req_capacity_mask
    &&& v.header_comp_capacity == v.comp_capacity
    &&& v.header_comp_capacity_mask == v.comp_capacity_mask
    &&& v.req_entries.len() == v.req_capacity
    &&& v.comp_entries.len() == v.comp_capacity
    &&& v.shared_flags.len() == v.req_capacity
    &&& v.buf_size == spec_buffer_size(v.req_capacity as int, v.comp_capacity as int)
}

/// Whether `c` is a capacity that a buffer may be asked for.
pub open spec fn capacity_in_range(c: usize) -> bool {
    0 < c <= MAX_ASYNC_CALL_ENTRY_NUM
}

impl View for AsyncCallBuffer {
    type V = AsyncCallBufferView;

    closed spec fn view(&self) -> AsyncCallBufferView {
        AsyncCallBufferView {
            req_capacity: self.req_capacity,
            comp_capacity: self.comp_capacity,
            req_capacity_mask: self.req_capacity_mask,
            comp_capacity_mask: self.comp_capacity_mask,
            header_req_capacity: self.layout.req_capacity,
            header_req_capacity_mask: self.layout.req_capacity_mask,
            header_comp_capacity: self.layout.comp_capacity,
            header_comp_capacity_mask: self.layout.comp_capacity_mask,
            req_head: self.layout.req_ring.head.inner(),
            req_tail: self.layout.req_ring.tail.inner(),
            comp_head: self.layout.comp_ring.head.inner(),
            comp_tail: self.layout.comp_ring.tail.inner(),
            req_entries: self.layout.req_entries@,
            comp_entries: self.layout.comp_entries@,
            buf_size: self.buf_size,
            shared_flags: self.shared_flags@,
        }
    }
}

/// The smallest power of two that is at least `x`.
fn next_power_of_two(x: usize) -> (r: u32)
    requires
        capacity_in_range(x),
    ensures
        is_next_power_of_two(x as int, r),
{
    let mut p: u32 = 1;
    while (p as usize) < x
        invariant
            capacity_in_range(x),
            valid_capacity(p),
            p == 1 || p / 2 < x,
        decreases 32768 - p,
    {
        p = p * 2;
    }
    p
}

/// One more step past a counter is one more wrapping increment.
proof fn lemma_advance_step(x: u32, j: int)
    requires
        0 <= j,
    ensures
        ring_advance(x, j + 1) == vstd::wrapping::u32_specs::wrapping_add(ring_advance(x, j), 1),
{
    let m: int = 0x1_0000_0000;
    let a: int = x + j;
    vstd::arithmetic::div_mod::lemma_add_mod_noop(a, 1, m);
    vstd::arithmetic::div_mod::lemma_mod_bound(a, m);
    if a % m + 1 < m {
        vstd::arithmetic::div_mod::lemma_small_mod((a % m + 1) as nat, m as nat);
    } else {
        assert(a % m + 1 == m);
        vstd::arithmetic::div_mod::lemma_mod_self_0(m);
    }
}

/// The count from a counter to `j` steps past it is `j`.
proof fn lemma_count_advance(x: u32, j: int)
    requires
        0 <= j < 0x1_0000_0000,
    ensures
        ring_count(x, ring_advance(x, j)) == j,
{
    let m: int = 0x1_0000_0000;
    let a: int = x + j;
    if a < m {
        vstd::arithmetic::div_mod::lemma_small_mod(a as nat, m as nat);
    } else {
        vstd::arithmetic::div_mod::lemma_mod_sub_multiples_vanish(a, m);
        vstd::arithmetic::div_mod::lemma_small_mod((a - m) as nat, m as nat);
    }
}

/// The request entries after the `k` slots that follow counter `head` have
/// been marked `Null`.
pub open spec fn retire_run(
    entries: Seq<RequestRingEntry>,
    head: int,
    k: int,
    cap: int,
) -> Seq<RequestRingEntry> {
    Seq::new(
        cap as nat,
        |s: int|
            if slot_in_run(head, k, cap, s) {
                entries[s].with_flags(AsyncCallState::Null.value())
            } else {
                entries[s]
            },
    )
}

/// Whether `f` is `o` after the run of `Done` requests at the head of the
/// request ring has been retired: the head has moved past the run, whose
/// entries are now `Null`, and the run ends at the first entry that is not
/// `Done`, or after a full turn of the ring.
pub open spec fn retires_run(o: AsyncCallBufferView, f: AsyncCallBufferView) -> bool {
    let h = o.req_head as int;
    let cap = o.req_capacity as int;
    let k = ring_count(o.req_head, f.req_head);
    &&& 0 <= k <= cap
    &&& forall|j: int|
        0 <= j < k ==> (#[trigger] o.req_entries[(h + j) % cap]).flags
            == AsyncCallState::Done.value()
    &&& k < cap ==> o.req_entries[(h + k) % cap].flags != AsyncCallState::Done.value()
    &&& f == (AsyncCallBufferView {
        req_head: ring_advance(o.req_head, k),
        req_entries: retire_run(o.req_entries, h, k, cap),
        ..o
    })
}

/// The buffer once the request of worker `id` is complete, before the done
/// requests are retired: its completion, holding its `user_data` and the
/// code of `res`, is at `comp_ring_tail`, the completion tail is one past
/// it, and the request is `Done`.
pub open spec fn spec_completed(
    o: AsyncCallBufferView,
    id: usize,
    res: LxResult<usize>,
    comp_ring_tail: u32,
) -> AsyncCallBufferView {
    let slot = ((id as u32) % o.req_capacity) as int;
    let completion = CompletionRingEntry::spec_new(
        o.req_entries[slot].user_data,
        spec_result_code(res),
    );
    AsyncCallBufferView {
        comp_tail: ring_advance(comp_ring_tail, 1),
        comp_entries: o.comp_entries.update((comp_ring_tail % o.comp_capacity) as int, completion),
        req_entries: o.req_entries.update(
            slot,
            o.req_entries[slot].with_flags(AsyncCallState::Done.value()),
        ),
        ..o
    }
}

/// What allocating a buffer for `req_capacity` and `comp_capacity` entries
/// gives: `EINVAL` where either is zero or above the largest, otherwise a
/// well-formed buffer whose rings hold the next powers of two, with counters
/// and entries at zero.
pub open spec fn spec_new_result(
    req_capacity: usize,
    comp_capacity: usize,
    r: LxResult<AsyncCallBuffer>,
) -> bool {
    &&& r is Err <==> !(capacity_in_range(req_capacity) && capacity_in_range(comp_capacity))
    &&& r matches Err(e) ==> e == LxError::EINVAL
    &&& r matches Ok(buf) ==> {
        &&& buf.wf()
        &&& view_wf(buf@)
        &&& is_next_power_of_two(req_capacity as int, buf@.req_capacity)
        &&& is_next_power_of_two(comp_capacity as int, buf@.comp_capacity)
        &&& buf@.req_head == 0 && buf@.req_tail == 0
        &&& buf@.comp_head == 0 && buf@.comp_tail == 0
        &&& buf@.req_entries == Seq::new(
            buf@.req_capacity as nat,
            |i: int| RequestRingEntry::spec_zeroed(),
        )
        &&& buf@.comp_entries == Seq::new(
            buf@.comp_capacity as nat,
            |i: int| CompletionRingEntry::spec_zeroed(),
        )
        &&& buf@.shared_flags == Seq::new(buf@.req_capacity as nat, |i: int| 0u32)
        &&& buf@.buf_size == spec_buffer_size(
            buf@.req_capacity as int,
            buf@.comp_capacity as int,
        )
    }
}

impl AsyncCallBuffer {
    /// The buffer is well formed: its capacities are powers of two within
    /// range, the masks are one less, the shared copies agree, and each ring
    /// has one entry per slot.
    pub open spec fn wf(&self) -> bool {
        view_wf(self@)
    }

    /// Allocates a buffer whose rings hold at least `req_capacity` and
    /// `comp_capacity` entries, each rounded up to a power of two. The
    /// counters and entries start at zero.
    pub fn new(req_capacity: usize, comp_capacity: usize) -> (r: LxResult<AsyncCallBuffer>)
        ensures
            spec_new_result(req_capacity, comp_capacity, r),
    {
        if req_capacity == 0 || req_capacity > MAX_ASYNC_CALL_ENTRY_NUM {
            return Err(LxError::EINVAL);
        }
        if comp_capacity == 0 || comp_capacity > MAX_ASYNC_CALL_ENTRY_NUM {
            return Err(LxError::EINVAL);
        }
        let req_capacity: u32 = next_power_of_two(req_capacity);
        let comp_capacity: u32 = next_power_of_two(comp_capacity);

        let req_entries_off: usize = REQ_ENTRIES_OFFSET;
        let comp_entries_off: usize = roundup_cache(
            req_entries_off + REQUEST_ENTRY_SIZE * (req_capacity as usize),
        );
        let buf_size: usize = comp_entries_off + COMPLETION_ENTRY_SIZE * (comp_capacity as usize);

        let mut req_entries: Vec<RequestRingEntry> = Vec::new();
        while req_entries.len() < req_capacity as usize
            invariant
                req_entries.len() <= req_capacity,
                forall|i: int|
                    0 <= i < req_entries.len() ==> req_entries@[i]
                        == RequestRingEntry::spec_zeroed(),
            decreases req_capacity - req_entries.len(),
        {
            req_entries.push(RequestRingEntry::zeroed());
        }
        let mut comp_entries: Vec<CompletionRingEntry> = Vec::new();
        while comp_entries.len() < comp_capacity as usize
            invariant
                comp_entries.len() <= comp_capacity,
                forall|i: int|
                    0 <= i < comp_entries.len() ==> comp_entries@[i]
                        == CompletionRingEntry::spec_zeroed(),
            decreases comp_capacity - comp_entries.len(),
        {
            comp_entries.push(CompletionRingEntry::zeroed());
        }
        assert(req_entries@ =~= Seq::new(
            req_capacity as nat,
            |i: int| RequestRingEntry::spec_zeroed(),
        ));
        assert(comp_entries@ =~= Seq::new(
            comp_capacity as nat,
            |i: int| CompletionRingEntry::spec_zeroed(),
        ));
        let mut shared_flags: Vec<u32> = Vec::new();
        while shared_flags.len() < req_capacity as usize
            invariant
                shared_flags.len() <= req_capacity,
                forall|i: int| 0 <= i < shared_flags.len() ==> shared_flags@[i] == 0,
            decreases req_capacity - shared_flags.len(),
        {
            shared_flags.push(0);
        }
        assert(shared_flags@ =~= Seq::new(req_capacity as nat, |i: int| 0u32));
        let layout = AsyncCallBufferLayout {
            req_ring: Ring { head: AlignCacheLine::new(0), tail: AlignCacheLine::new(0) },
            comp_ring: Ring { head: AlignCacheLine::new(0), tail: AlignCacheLine::new(0) },
            req_capacity,
            req_capacity_mask: req_capacity - 1,
            comp_capacity,
            comp_capacity_mask: comp_capacity - 1,
            req_entries,
            comp_entries,
        };
        Ok(AsyncCallBuffer {
            req_capacity,
            comp_capacity,
            req_capacity_mask: req_capacity - 1,
            comp_capacity_mask: comp_capacity - 1,
            buf_size,
            shared_flags,
            layout,
        })
    }

    /// Capacity of the request ring.
    pub fn req_capacity(&self) -> (r: u32)
        ensures
            r == self@.req_capacity,
    {
        self.req_capacity
    }

    /// Capacity of the completion ring.
    pub fn comp_capacity(&self) -> (r: u32)
        ensures
            r == self@.comp_capacity,
    {
        self.comp_capacity
    }

    /// Size in bytes of the shared buffer.
    pub fn size(&self) -> (r: usize)
        ensures
            r == self@.buf_size,
    {
        self.buf_size
    }

    /// Tells the user process where the buffer is mapped, how large it is,
    /// and where each field of the rings lies in it.
    pub fn fill_user_info(&self, user_buf_ptr: usize) -> (r: AsyncCallInfoUser)
        requires
            self.wf(),
        ensures
            r.user_buf_ptr == user_buf_ptr,
            r.buf_size == self@.buf_size,
            r.req_off.head == REQ_RING_HEAD_OFFSET,
            r.req_off.tail == REQ_RING_TAIL_OFFSET,
            r.req_off.capacity == REQ_CAPACITY_OFFSET,
            r.req_off.capacity_mask == REQ_CAPACITY_MASK_OFFSET,
            r.req_off.entries == REQ_ENTRIES_OFFSET,
            r.comp_off.head == COMP_RING_HEAD_OFFSET,
            r.comp_off.tail == COMP_RING_TAIL_OFFSET,
            r.comp_off.capacity == COMP_CAPACITY_OFFSET,
            r.comp_off.capacity_mask == COMP_CAPACITY_MASK_OFFSET,
            r.comp_off.entries == spec_comp_entries_offset(self@.req_capacity as int),
            // the entries of both rings start on a cache line, the
            // completion entries after the last request entry, and the
            // buffer ends with the last completion entry
            r.req_off.entries % 64 == 0,
            r.comp_off.entries % 64 == 0,
            r.req_off.entries + REQUEST_ENTRY_SIZE * self@.req_capacity <= r.comp_off.entries,
            r.buf_size == r.comp_off.entries + COMPLETION_ENTRY_SIZE * self@.comp_capacity,
    {
        let req_entries_off: usize = REQ_ENTRIES_OFFSET;
        let comp_entries_off: usize = roundup_cache(
            req_entries_off + REQUEST_ENTRY_SIZE * (self.req_capacity as usize),
        );
        AsyncCallInfoUser {
            user_buf_ptr,
            buf_size: self.buf_size,
            req_off: RingOffsets {
                head: REQ_RING_HEAD_OFFSET,
                tail: REQ_RING_TAIL_OFFSET,
                capacity: REQ_CAPACITY_OFFSET,
                capacity_mask: REQ_CAPACITY_MASK_OFFSET,
                entries: req_entries_off as u32,
            },
            comp_off: RingOffsets {
                head: COMP_RING_HEAD_OFFSET,
                tail: COMP_RING_TAIL_OFFSET,
                capacity: COMP_CAPACITY_OFFSET,
                capacity_mask: COMP_CAPACITY_MASK_OFFSET,
                entries: comp_entries_off as u32,
            },
        }
    }

    /// The request ring's head counter.
    pub fn read_req_ring_head(&self) -> (r: u32)
        ensures
            r == self@.req_head,
    {
        self.layout.req_ring.head.get()
    }

    /// Sets the request ring's head counter.
    pub fn write_req_ring_head(&mut self, new_head: u32)
        requires
            old(self).wf(),
        ensures
            final(self).wf(),
            final(self)@ == (AsyncCallBufferView { req_head: new_head, ..old(self)@ }),
    {
        *self.layout.req_ring.head.as_mut() = new_head;
    }

    /// The request ring's tail counter.
    pub fn read_req_ring_tail(&self) -> (r: u32)
        ensures
            r == self@.req_tail,
    {
        self.layout.req_ring.tail.get()
    }

    /// Sets the request ring's tail counter: what the user process does
    /// when it submits requests.
    pub fn write_req_ring_tail(&mut self, new_tail: u32)
        requires
            old(self).wf(),
        ensures
            final(self).wf(),
            final(self)@ == (AsyncCallBufferView { req_tail: new_tail, ..old(self)@ }),
    {
        *self.layout.req_ring.tail.as_mut() = new_tail;
    }

    /// The number of requests between `cached_req_ring_head` and the tail of
    /// the request ring; `ENOBUFS` where that is more than the ring holds.
    pub fn request_count(&self, cached_req_ring_head: u32) -> (r: LxResult<u32>)
        requires
            self.wf(),
        ensures
            match r {
                Ok(n) => n == ring_count(cached_req_ring_head, self@.req_tail)
                    && n <= self@.req_capacity,
                Err(e) => e == LxError::ENOBUFS
                    && ring_count(cached_req_ring_head, self@.req_tail) > self@.req_capacity,
            },
    {
        let n: u32 = self.read_req_ring_tail().wrapping_sub(cached_req_ring_head);
        if n <= self.req_capacity {
            Ok(n)
        } else {
            Err(LxError::ENOBUFS)
        }
    }

    /// The completion ring's head counter.
    pub fn read_comp_ring_head(&self) -> (r: u32)
        ensures
            r == self@.comp_head,
    {
        self.layout.comp_ring.head.get()
    }

    /// Sets the completion ring's head counter: what the user process does
    /// when it has consumed completions.
    pub fn write_comp_ring_head(&mut self, new_head: u32)
        requires
            old(self).wf(),
        ensures
            final(self).wf(),
            final(self)@ == (AsyncCallBufferView { comp_head: new_head, ..old(self)@ }),
    {
        *self.layout.comp_ring.head.as_mut() = new_head;
    }

    /// The completion ring's tail counter.
    pub fn read_comp_ring_tail(&self) -> (r: u32)
        ensures
            r == self@.comp_tail,
    {
        self.layout.comp_ring.tail.get()
    }

    /// Sets the completion ring's tail counter.
    pub fn write_comp_ring_tail(&mut self, new_tail: u32)
        requires
            old(self).wf(),
        ensures
            final(self).wf(),
            final(self)@ == (AsyncCallBufferView { comp_tail: new_tail, ..old(self)@ }),
    {
        *self.layout.comp_ring.tail.as_mut() = new_tail;
    }

    /// The number of completions between the head of the completion ring
    /// and `cached_comp_ring_tail`; `ENOBUFS` where that is more than the
    /// ring holds.
    pub fn completion_count(&self, cached_comp_ring_tail: u32) -> (r: LxResult<u32>)
        requires
            self.wf(),
        ensures
            match r {
                Ok(n) => n == ring_count(self@.comp_head, cached_comp_ring_tail)
                    && n <= self@.comp_capacity,
                Err(e) => e == LxError::ENOBUFS
                    && ring_count(self@.comp_head, cached_comp_ring_tail) > self@.comp_capacity,
            },
    {
        let n: u32 = cached_comp_ring_tail.wrapping_sub(self.read_comp_ring_head());
        if n <= self.comp_capacity {
            Ok(n)
        } else {
            Err(LxError::ENOBUFS)
        }
    }

    /// The request entry in the slot of counter `idx`.
    pub fn req_entry_at(&self, idx: u32) -> (r: &RequestRingEntry)
        requires
            self.wf(),
        ensures
            *r == self@.req_entries[(idx % self@.req_capacity) as int],
    {
        proof {
            lemma_capacity_mask(idx, self.req_capacity);
        }
        &self.layout.req_entries[(idx & self.req_capacity_mask) as usize]
    }

    /// The request entry in the slot of counter `idx`, to be written.
    pub fn req_entry_at_mut(&mut self, idx: u32) -> (r: &mut RequestRingEntry)
        requires
            old(self).wf(),
        ensures
            *r == old(self)@.req_entries[(idx % old(self)@.req_capacity) as int],
            final(self).wf(),
            final(self)@ == (AsyncCallBufferView {
                req_entries: old(self)@.req_entries.update(
                    (idx % old(self)@.req_capacity) as int,
                    *final(r),
                ),
                ..old(self)@
            }),
    {
        proof {
            lemma_capacity_mask(idx, self.req_capacity);
        }
        let slot: usize = (idx & self.req_capacity_mask) as usize;
        &mut self.layout.req_entries[slot]
    }

    /// The completion entry in the slot of counter `idx`, to be written.
    pub fn comp_entry_at(&mut self, idx: u32) -> (r: &mut CompletionRingEntry)
        requires
            old(self).wf(),
        ensures
            *r == old(self)@.comp_entries[(idx % old(self)@.comp_capacity) as int],
            final(self).wf(),
            final(self)@ == (AsyncCallBufferView {
                comp_entries: old(self)@.comp_entries.update(
                    (idx % old(self)@.comp_capacity) as int,
                    *final(r),
                ),
                ..old(self)@
            }),
    {
        proof {
            lemma_capacity_mask(idx, self.comp_capacity);
        }
        let slot: usize = (idx & self.comp_capacity_mask) as usize;
        &mut self.layout.comp_entries[slot]
    }

    /// Retires the finished requests at the head of the request ring: while
    /// the entry at the head is `Done`, marks it `Null` and advances the
    /// head. The run ends at the first entry that is not `Done`, or after a
    /// full turn of the ring.
    pub fn submit_req_ring(&mut self)
        requires
            old(self).wf(),
        ensures
            final(self).wf(),
            retires_run(old(self)@, final(self)@),
    {
        let ghost o = self@;
        let ghost h: int = o.req_head as int;
        let ghost cap: int = o.req_capacity as int;
        let ghost mut j: int = 0;
        proof {
            vstd::arithmetic::div_mod::lemma_small_mod(o.req_head as nat, 0x1_0000_0000nat);
            assert(retire_run(o.req_entries, h, 0, cap) =~= o.req_entries) by {
                assert forall|s: int| 0 <= s < cap implies !slot_in_run(h, 0, cap, s) by {
                    vstd::arithmetic::div_mod::lemma_mod_bound(s - h, cap);
                }
            }
        }
        loop
            invariant
                self.wf(),
                o.req_capacity == self@.req_capacity,
                view_wf(o),
                h == o.req_head,
                cap == o.req_capacity,
                0 <= j <= cap,
                forall|i: int|
                    0 <= i < j ==> (#[trigger] o.req_entries[(h + i) % cap]).flags
                        == AsyncCallState::Done.value(),
                self@ == (AsyncCallBufferView {
                    req_head: ring_advance(o.req_head, j),
                    req_entries: retire_run(o.req_entries, h, j, cap),
                    ..o
                }),
            ensures
                j < cap ==> o.req_entries[(h + j) % cap].flags != AsyncCallState::Done.value(),
            decreases cap - j,
        {
            let head: u32 = self.read_req_ring_head();
            let flags: u32 = self.req_entry_at(head).flags;
            let ghost s0: int = (h + j) % cap;
            proof {
                lemma_wrap_slot(h + j, o.req_capacity);
                vstd::arithmetic::div_mod::lemma_mod_bound(h + j, cap);
                if j < cap {
                    lemma_slot_offset(h, j, cap, s0);
                } else {
                    vstd::arithmetic::div_mod::lemma_mod_bound(s0 - h, cap);
                }
            }
            if flags != AsyncCallState::Done.as_u32() {
                break;
            }
            let entry = self.req_entry_at_mut(head);
            entry.flags = AsyncCallState::Null.as_u32();
            *self.layout.req_ring.head.as_mut() = head.wrapping_add(1);
            proof {
                lemma_advance_step(o.req_head, j);
                assert forall|s: int| 0 <= s < cap implies
                    (slot_in_run(h, j + 1, cap, s) <==> (slot_in_run(h, j, cap, s) || s == s0)) by {
                    lemma_slot_offset(h, j, cap, s);
                }
                assert(self@.req_entries =~= retire_run(o.req_entries, h, j + 1, cap));
                j = j + 1;
            }
        }
        proof {
            lemma_count_advance(o.req_head, j);
        }
    }

    /// Whether the request in the slot of worker `id` has been submitted and
    /// waits to be handled.
    pub fn request_ready(&self, id: usize) -> (r: bool)
        requires
            self.wf(),
        ensures
            r == (self@.req_entries[((id as u32) % self@.req_capacity) as int].flags
                == AsyncCallState::Init.value()),
    {
        self.req_entry_at(id as u32).flags == AsyncCallState::Init.as_u32()
    }

    /// The completion ring's tail, where a completion may be written;
    /// `None` where the ring is full.
    pub fn comp_ring_available(&self) -> (r: Option<u32>)
        requires
            self.wf(),
            ring_count(self@.comp_head, self@.comp_tail) <= self@.comp_capacity,
        ensures
            r == (if ring_count(self@.comp_head, self@.comp_tail) == self@.comp_capacity {
                None
            } else {
                Some(self@.comp_tail)
            }),
    {
        let comp_ring_tail: u32 = self.read_comp_ring_tail();
        match self.completion_count(comp_ring_tail) {
            Ok(n) => {
                if n == self.comp_capacity {
                    None
                } else {
                    Some(comp_ring_tail)
                }
            },
            Err(_) => {
                proof {
                    assert(false);
                }
                None
            },
        }
    }

    /// Completes the request of worker `id` with `res`: writes its
    /// completion at `comp_ring_tail`, moves the completion tail one past
    /// it, marks the request `Done` and retires the finished requests at the
    /// head of the request ring.
    pub fn complete(&mut self, id: usize, res: LxResult<usize>, comp_ring_tail: u32)
        requires
            old(self).wf(),
        ensures
            final(self).wf(),
            retires_run(spec_completed(old(self)@, id, res, comp_ring_tail), final(self)@),
    {
        let idx: u32 = id as u32;
        let user_data: u32 = self.req_entry_at(idx).user_data;
        *self.comp_entry_at(comp_ring_tail) = CompletionRingEntry::new(user_data, res);
        proof {
            lemma_advance_step(comp_ring_tail, 0);
            vstd::arithmetic::div_mod::lemma_small_mod(comp_ring_tail as nat, 0x1_0000_0000nat);
        }
        self.write_comp_ring_tail(comp_ring_tail.wrapping_add(1));
        let entry = self.req_entry_at_mut(idx);
        entry.flags = AsyncCallState::Done.as_u32();
        self.submit_req_ring();
    }
}

/// A state is told apart by its number: no two states share one.
pub proof fn lemma_state_value_injective(a: AsyncCallState, b: AsyncCallState)
    ensures
        a.value() == b.value() <==> a == b,
{
}

/// A reason is told apart by its number: no two reasons share one.
pub proof fn lemma_reason_value_injective(a: PendingReason, b: PendingReason)
    ensures
        a.value() == b.value() <==> a == b,
{
}

/// The capacity that a buffer gets for a request is unique: only one power
/// of two is the next one.
pub proof fn lemma_next_power_of_two_unique(x: int, a: u32, b: u32)
    requires
        is_next_power_of_two(x, a),
        is_next_power_of_two(x, b),
    ensures
        a == b,
{
}

/// The user tells success from failure by the sign of a completion's
/// result: a success whose value fits in an `i32` is not negative, a failure
/// is the negated error number.
pub proof fn lemma_result_code_sign(res: LxResult<usize>)
    ensures
        res matches Ok(v) ==> (v <= i32::MAX ==> spec_result_code(res) == v),
        res matches Err(e) ==> (spec_result_code(res) == -e.code() && spec_result_code(res) < 0),
{
}

/// Completing the request at the head of the request ring retires at least
/// that request: the head moves past it and its slot is free again.
pub proof fn lemma_completed_head_is_retired(done: AsyncCallBufferView, f: AsyncCallBufferView)
    requires
        view_wf(done),
        done.req_entries[(done.req_head % done.req_capacity) as int].flags
            == AsyncCallState::Done.value(),
        retires_run(done, f),
    ensures
        ring_count(done.req_head, f.req_head) >= 1,
        f.req_entries[(done.req_head % done.req_capacity) as int].flags
            == AsyncCallState::Null.value(),
{
    let h = done.req_head as int;
    let cap = done.req_capacity as int;
    let s = h % cap;
    assert(h + 0 == h);
    vstd::arithmetic::div_mod::lemma_mod_bound(h, cap);
    lemma_slot_offset(h, 0, cap, s);
}

/// A completed request is delivered: the completion ring holds, at the slot
/// of the tail the worker was given, one completion with the request's
/// `user_data` and the code of its result, and the completion tail has
/// moved one past it.
pub proof fn lemma_completion_is_delivered(
    o: AsyncCallBufferView,
    f: AsyncCallBufferView,
    id: usize,
    res: LxResult<usize>,
    comp_ring_tail: u32,
)
    requires
        view_wf(o),
        retires_run(spec_completed(o, id, res, comp_ring_tail), f),
    ensures
        f.comp_tail == ring_advance(comp_ring_tail, 1),
        f.comp_head == o.comp_head,
        f.comp_entries[(comp_ring_tail % o.comp_capacity) as int] == CompletionRingEntry::spec_new(
            o.req_entries[((id as u32) % o.req_capacity) as int].user_data,
            spec_result_code(res),
        ),
        forall|s: int|
            0 <= s < o.comp_capacity && s != (comp_ring_tail % o.comp_capacity) as int
                ==> f.comp_entries[s] == o.comp_entries[s],
{
}

/// A worker that completes its request at the tail that
/// `comp_ring_available` handed it, while the completion ring had room,
/// overwrites no completion that the user has not consumed yet: the
/// completions between the head and the old tail stay as they were, and the
/// ring then holds one more completion, no more than its capacity.
pub proof fn lemma_completion_overwrites_nothing_unconsumed(
    o: AsyncCallBufferView,
    f: AsyncCallBufferView,
    id: usize,
    res: LxResult<usize>,
)
    requires
        view_wf(o),
        ring_count(o.comp_head, o.comp_tail) < o.comp_capacity,
        retires_run(spec_completed(o, id, res, o.comp_tail), f),
    ensures
        ring_count(f.comp_head, f.comp_tail) == ring_count(o.comp_head, o.comp_tail) + 1,
        ring_count(f.comp_head, f.comp_tail) <= o.comp_capacity,
        forall|j: int|
            0 <= j < ring_count(o.comp_head, o.comp_tail) ==> #[trigger] f.comp_entries[(o.comp_head
                + j) % (o.comp_capacity as int)] == o.comp_entries[(o.comp_head + j) % (
            o.comp_capacity as int)],
{
    let h = o.comp_head as int;
    let cap = o.comp_capacity as int;
    let count = ring_count(o.comp_head, o.comp_tail);
    let s = (h + count) % cap;
    assert((o.comp_tail as int) == (h + count) % 0x1_0000_0000) by {
        if h <= o.comp_tail {
            vstd::arithmetic::div_mod::lemma_small_mod((h + count) as nat, 0x1_0000_0000nat);
        } else {
            vstd::arithmetic::div_mod::lemma_mod_sub_multiples_vanish(h + count, 0x1_0000_0000);
            vstd::arithmetic::div_mod::lemma_small_mod(
                (h + count - 0x1_0000_0000) as nat,
                0x1_0000_0000nat,
            );
        }
    }
    lemma_wrap_slot(h + count, o.comp_capacity);
    assert((o.comp_tail % o.comp_capacity) as int == s);
    // the tail moves one step past the unconsumed completions
    assert(o.comp_tail == ring_advance(o.comp_head, count));
    lemma_advance_step(o.comp_tail, 0);
    vstd::arithmetic::div_mod::lemma_small_mod(o.comp_tail as nat, 0x1_0000_0000nat);
    lemma_advance_step(o.comp_head, count);
    assert(f.comp_tail == ring_advance(o.comp_head, count + 1));
    lemma_count_advance(o.comp_head, count + 1);
    vstd::arithmetic::div_mod::lemma_mod_bound(h + count, cap);
    lemma_slot_offset(h, count, cap, s);
    assert forall|j: int| 0 <= j < count implies #[trigger] f.comp_entries[(h + j) % cap]
        == o.comp_entries[(h + j) % cap] by {
        lemma_slot_offset(h, j, cap, s);
        vstd::arithmetic::div_mod::lemma_mod_bound(h + j, cap);
    }
}

/// The `u32` stored little-endian at byte `off` of `m`.
pub open spec fn spec_read_u32_at(m: Seq<u8>, off: int) -> u32 {
    spec_u32_from_le_bytes(m.subrange(off, off + 4))
}

/// The `u64` stored little-endian at byte `off` of `m`.
pub open spec fn spec_read_u64_at(m: Seq<u8>, off: int) -> u64 {
    spec_u64_from_le_bytes(m.subrange(off, off + 8))
}

/// The request entry stored at byte `off` of `m`.
pub open spec fn spec_decode_request(m: Seq<u8>, off: int) -> RequestRingEntry {
    RequestRingEntry {
        syscall_id: spec_read_u64_at(m, off),
        arg0: spec_read_u64_at(m, off + 8),
        arg1: spec_read_u64_at(m, off + 16),
        arg2: spec_read_u64_at(m, off + 24),
        arg3: spec_read_u64_at(m, off + 32),
        arg4: spec_read_u64_at(m, off + 40),
        arg5: spec_read_u64_at(m, off + 48),
        flags: spec_read_u32_at(m, off + 56),
        user_data: spec_read_u32_at(m, off + 60),
    }
}

/// The completion entry stored at byte `off` of `m`.
pub open spec fn spec_decode_completion(m: Seq<u8>, off: int) -> CompletionRingEntry {
    CompletionRingEntry::spec_new(spec_read_u32_at(m, off), spec_read_u32_at(m, off + 4) as i32)
}

/// The state of a buffer `v` after the counters and entries that the shared
/// memory `m` holds have been read into it.
pub open spec fn spec_loaded(v: AsyncCallBufferView, m: Seq<u8>) -> AsyncCallBufferView {
    let coff = spec_comp_entries_offset(v.req_capacity as int);
    AsyncCallBufferView {
        req_head: spec_read_u32_at(m, REQ_RING_HEAD_OFFSET as int),
        req_tail: spec_read_u32_at(m, REQ_RING_TAIL_OFFSET as int),
        comp_head: spec_read_u32_at(m, COMP_RING_HEAD_OFFSET as int),
        comp_tail: spec_read_u32_at(m, COMP_RING_TAIL_OFFSET as int),
        req_entries: Seq::new(
            v.req_capacity as nat,
            |i: int| spec_decode_request(m, REQ_ENTRIES_OFFSET + REQUEST_ENTRY_SIZE * i),
        ),
        comp_entries: Seq::new(
            v.comp_capacity as nat,
            |i: int| spec_decode_completion(m, coff + COMPLETION_ENTRY_SIZE * i),
        ),
        shared_flags: Seq::new(
            v.req_capacity as nat,
            |i: int| spec_read_u32_at(m, REQ_ENTRIES_OFFSET + REQUEST_ENTRY_SIZE * i + 56),
        ),
        ..v
    }
}

/// `m` with the `u32` `x` stored little-endian at byte `off`.
pub open spec fn spec_put_u32(m: Seq<u8>, off: int, x: u32) -> Seq<u8> {
    m.subrange(0, off) + spec_u32_to_le_bytes(x) + m.subrange(off + 4, m.len() as int)
}

/// `m` with the header fields that the kernel owns stored: the request
/// ring's head, the completion ring's tail, and both capacities and masks.
pub open spec fn spec_put_header(v: AsyncCallBufferView, m: Seq<u8>) -> Seq<u8> {
    let m1 = spec_put_u32(m, REQ_RING_HEAD_OFFSET as int, v.req_head);
    let m2 = spec_put_u32(m1, COMP_RING_TAIL_OFFSET as int, v.comp_tail);
    let m3 = spec_put_u32(m2, REQ_CAPACITY_OFFSET as int, v.header_req_capacity);
    let m4 = spec_put_u32(m3, REQ_CAPACITY_MASK_OFFSET as int, v.header_req_capacity_mask);
    let m5 = spec_put_u32(m4, COMP_CAPACITY_OFFSET as int, v.header_comp_capacity);
    spec_put_u32(m5, COMP_CAPACITY_MASK_OFFSET as int, v.header_comp_capacity_mask)
}

/// `m` with the `flags` of those of the first `n` request entries stored
/// that differ from `shared`, the flags as the region last held them; the
/// other flags are left as `m` holds them.
pub open spec fn spec_put_request_flags(
    m: Seq<u8>,
    entries: Seq<RequestRingEntry>,
    shared: Seq<u32>,
    n: nat,
) -> Seq<u8>
    decreases n,
{
    if n == 0 {
        m
    } else {
        let prev = spec_put_request_flags(m, entries, shared, (n - 1) as nat);
        if entries[n - 1].flags != shared[n - 1] {
            spec_put_u32(
                prev,
                REQ_ENTRIES_OFFSET + REQUEST_ENTRY_SIZE * (n - 1) + 56,
                entries[n - 1].flags,
            )
        } else {
            prev
        }
    }
}

/// `m` with the first `n` completion entries stored from byte `base` on.
pub open spec fn spec_put_completions(
    m: Seq<u8>,
    base: int,
    entries: Seq<CompletionRingEntry>,
    n: nat,
) -> Seq<u8>
    decreases n,
{
    if n == 0 {
        m
    } else {
        let prev = spec_put_completions(m, base, entries, (n - 1) as nat);
        let off = base + COMPLETION_ENTRY_SIZE * (n - 1);
        spec_put_u32(
            spec_put_u32(prev, off, entries[n - 1].spec_user_data()),
            off + 4,
            entries[n - 1].spec_result() as u32,
        )
    }
}

/// The shared memory `m` after the kernel has stored what it owns of `v`:
/// the header fields, the `flags` that it has changed since it last read or
/// wrote them, and each completion entry. What the user process writes
/// (the request ring's tail, the completion ring's head, the fields of each
/// request entry, and the `flags` with which it submits a request) is left
/// as `m` holds it, unless the kernel has changed that flag itself.
pub open spec fn spec_stored(v: AsyncCallBufferView, m: Seq<u8>) -> Seq<u8> {
    spec_put_header(v, spec_stored_entries(v, m))
}

/// The shared memory `m` after the kernel has stored the entries it owns of
/// `v`: the request `flags` that it has changed, and each completion entry.
pub open spec fn spec_stored_entries(v: AsyncCallBufferView, m: Seq<u8>) -> Seq<u8> {
    spec_put_completions(
        spec_put_request_flags(m, v.req_entries, v.shared_flags, v.req_capacity as nat),
        spec_comp_entries_offset(v.req_capacity as int),
        v.comp_entries,
        v.comp_capacity as nat,
    )
}

/// Reads the `u32` stored little-endian at byte `off` of `mem`.
pub fn read_u32_at(mem: &[u8], off: usize) -> (r: u32)
    requires
        off + 4 <= mem@.len(),
    ensures
        r == spec_read_u32_at(mem@, off as int),
{
    let _len: usize = mem.len();
    vstd::bytes::u32_from_le_bytes(vstd::slice::slice_subrange(mem, off, off + 4))
}

/// Reads the `u64` stored little-endian at byte `off` of `mem`.
pub fn read_u64_at(mem: &[u8], off: usize) -> (r: u64)
    requires
        off + 8 <= mem@.len(),
    ensures
        r == spec_read_u64_at(mem@, off as int),
{
    let _len: usize = mem.len();
    vstd::bytes::u64_from_le_bytes(vstd::slice::slice_subrange(mem, off, off + 8))
}

/// Stores the `u32` `x` little-endian at byte `off` of `mem`.
pub fn write_u32_at(mem: &mut [u8], off: usize, x: u32)
    requires
        off + 4 <= old(mem)@.len(),
    ensures
        final(mem)@ == spec_put_u32(old(mem)@, off as int, x),
        final(mem)@.len() == old(mem)@.len(),
{
    let _len: usize = mem.len();
    let bytes = vstd::bytes::u32_to_le_bytes(x);
    let ghost m0 = mem@;
    let mut k: usize = 0;
    while k < 4
        invariant
            bytes@.len() == 4,
            off + 4 <= m0.len() == mem@.len() == _len,
            k <= 4,
            forall|j: int|
                0 <= j < mem@.len() ==> mem@[j] == if off <= j < off + k {
                    bytes@[j - off]
                } else {
                    m0[j]
                },
        decreases 4 - k,
    {
        mem[off + k] = bytes[k];
        k = k + 1;
    }
    assert(mem@ =~= spec_put_u32(m0, off as int, x));
}

/// Reads the request entry stored at byte `off` of `mem`.
pub fn decode_request_entry(mem: &[u8], off: usize) -> (r: RequestRingEntry)
    requires
        off + REQUEST_ENTRY_SIZE <= mem@.len(),
    ensures
        r == spec_decode_request(mem@, off as int),
{
    let _len: usize = mem.len();
    RequestRingEntry {
        syscall_id: read_u64_at(mem, off),
        arg0: read_u64_at(mem, off + 8),
        arg1: read_u64_at(mem, off + 16),
        arg2: read_u64_at(mem, off + 24),
        arg3: read_u64_at(mem, off + 32),
        arg4: read_u64_at(mem, off + 40),
        arg5: read_u64_at(mem, off + 48),
        flags: read_u32_at(mem, off + 56),
        user_data: read_u32_at(mem, off + 60),
    }
}

/// Reads the completion entry stored at byte `off` of `mem`.
pub fn decode_completion_entry(mem: &[u8], off: usize) -> (r: CompletionRingEntry)
    requires
        off + COMPLETION_ENTRY_SIZE <= mem@.len(),
    ensures
        r == spec_decode_completion(mem@, off as int),
{
    let _len: usize = mem.len();
    let user_data: u32 = read_u32_at(mem, off);
    let result: u32 = read_u32_at(mem, off + 4);
    CompletionRingEntry { user_data, result: result as i32 }
}

impl AsyncCallBuffer {
    /// Reads the counters and entries from `mem`, the memory that is mapped
    /// into the user process and laid out as `fill_user_info` says, into the
    /// buffer. The capacities and masks stay the kernel's own.
    pub fn load_shared(&mut self, mem: &[u8])
        requires
            old(self).wf(),
            mem@.len() == old(self)@.buf_size,
        ensures
            final(self).wf(),
            final(self)@ == spec_loaded(old(self)@, mem@),
    {
        let ghost v = self@;
        *self.layout.req_ring.head.as_mut() = read_u32_at(mem, REQ_RING_HEAD_OFFSET as usize);
        *self.layout.req_ring.tail.as_mut() = read_u32_at(mem, REQ_RING_TAIL_OFFSET as usize);
        *self.layout.comp_ring.head.as_mut() = read_u32_at(mem, COMP_RING_HEAD_OFFSET as usize);
        *self.layout.comp_ring.tail.as_mut() = read_u32_at(mem, COMP_RING_TAIL_OFFSET as usize);
        let rc: usize = self.req_capacity as usize;
        let cc: usize = self.comp_capacity as usize;
        let coff: usize = roundup_cache(REQ_ENTRIES_OFFSET + REQUEST_ENTRY_SIZE * rc);
        let mut reqs: Vec<RequestRingEntry> = Vec::new();
        let mut flags: Vec<u32> = Vec::new();
        let mut i: usize = 0;
        while i < rc
            invariant
                view_wf(v),
                rc == v.req_capacity,
                mem@.len() == v.buf_size,
                i <= rc,
                reqs@.len() == i,
                flags@.len() == i,
                forall|j: int|
                    0 <= j < i ==> reqs@[j] == spec_decode_request(
                        mem@,
                        REQ_ENTRIES_OFFSET + REQUEST_ENTRY_SIZE * j,
                    ),
                forall|j: int|
                    0 <= j < i ==> flags@[j] == spec_read_u32_at(
                        mem@,
                        REQ_ENTRIES_OFFSET + REQUEST_ENTRY_SIZE * j + 56,
                    ),
            decreases rc - i,
        {
            let e = decode_request_entry(mem, REQ_ENTRIES_OFFSET + REQUEST_ENTRY_SIZE * i);
            flags.push(e.flags);
            reqs.push(e);
            i = i + 1;
        }
        let mut comps: Vec<CompletionRingEntry> = Vec::new();
        let mut i: usize = 0;
        while i < cc
            invariant
                view_wf(v),
                cc == v.comp_capacity,
                coff == spec_comp_entries_offset(v.req_capacity as int),
                mem@.len() == v.buf_size,
                i <= cc,
                comps@.len() == i,
                forall|j: int|
                    0 <= j < i ==> comps@[j] == spec_decode_completion(
                        mem@,
                        coff + COMPLETION_ENTRY_SIZE * j,
                    ),
            decreases cc - i,
        {
            comps.push(decode_completion_entry(mem, coff + COMPLETION_ENTRY_SIZE * i));
            i = i + 1;
        }
        self.layout.req_entries = reqs;
        self.layout.comp_entries = comps;
        self.shared_flags = flags;
        assert(self@.shared_flags =~= spec_loaded(v, mem@).shared_flags);
        assert(self@.req_entries =~= spec_loaded(v, mem@).req_entries);
        assert(self@.comp_entries =~= spec_loaded(v, mem@).comp_entries);
    }

    /// Stores what the kernel owns of the buffer into `mem`, the memory
    /// that is mapped into the user process, in the order in which the user
    /// may see it: first the entries (with `store_entries`), then the
    /// counters that tell the user of them (with `store_counters`). So the
    /// user never sees the completion tail past a completion that is not
    /// written yet, nor the request head past a slot whose `Null` is not
    /// written yet, into which it could submit a request that the kernel
    /// would then undo. A flag that the kernel has not changed is left as
    /// `mem` holds it.
    pub fn store_shared(&mut self, mem: &mut [u8])
        requires
            old(self).wf(),
            old(mem)@.len() == old(self)@.buf_size,
        ensures
            final(mem)@ == spec_stored(old(self)@, old(mem)@),
            final(self).wf(),
            final(self)@ == (AsyncCallBufferView {
                shared_flags: Seq::new(
                    old(self)@.req_capacity as nat,
                    |i: int| old(self)@.req_entries[i].flags,
                ),
                ..old(self)@
            }),
    {
        self.store_entries(mem);
        self.store_counters(mem);
    }

    /// Stores the entries that the kernel owns into `mem`: the request
    /// `flags` that it has changed since it last read or wrote them, and
    /// each completion entry. The header, counters included, is left as it
    /// was. The flags are then known to be as the buffer holds them.
    pub fn store_entries(&mut self, mem: &mut [u8])
        requires
            old(self).wf(),
            old(mem)@.len() == old(self)@.buf_size,
        ensures
            final(mem)@ == spec_stored_entries(old(self)@, old(mem)@),
            final(mem)@.len() == old(mem)@.len(),
            final(mem)@.subrange(0, REQ_ENTRIES_OFFSET as int) == old(mem)@.subrange(
                0,
                REQ_ENTRIES_OFFSET as int,
            ),
            final(self).wf(),
            final(self)@ == (AsyncCallBufferView {
                shared_flags: Seq::new(
                    old(self)@.req_capacity as nat,
                    |i: int| old(self)@.req_entries[i].flags,
                ),
                ..old(self)@
            }),
    {
        let ghost v = self@;
        let ghost h = mem@;
        proof {
            vstd::bytes::lemma_auto_spec_u32_to_from_le_bytes();
        }
        let rc: usize = self.req_capacity as usize;
        let cc: usize = self.comp_capacity as usize;
        let coff: usize = roundup_cache(REQ_ENTRIES_OFFSET + REQUEST_ENTRY_SIZE * rc);
        let mut i: usize = 0;
        assert(v.shared_flags =~= Seq::new(
            v.req_capacity as nat,
            |j: int| if j < 0 { v.req_entries[j].flags } else { v.shared_flags[j] },
        ));
        while i < rc
            invariant
                view_wf(v),
                rc == v.req_capacity,
                h.len() == v.buf_size,
                i <= rc,
                self@ == (AsyncCallBufferView {
                    shared_flags: Seq::new(
                        v.req_capacity as nat,
                        |j: int| if j < i { v.req_entries[j].flags } else { v.shared_flags[j] },
                    ),
                    ..v
                }),
                mem@ == spec_put_request_flags(h, v.req_entries, v.shared_flags, i as nat),
                mem@.len() == h.len(),
            decreases rc - i,
        {
            let flags: u32 = self.layout.req_entries[i].flags;
            if flags != self.shared_flags[i] {
                write_u32_at(mem, REQ_ENTRIES_OFFSET + REQUEST_ENTRY_SIZE * i + 56, flags);
                self.shared_flags.set(i, flags);
            }
            assert(self@.shared_flags =~= Seq::new(
                v.req_capacity as nat,
                |j: int| if j < i + 1 { v.req_entries[j].flags } else { v.shared_flags[j] },
            ));
            i = i + 1;
        }
        assert(self@.shared_flags =~= Seq::new(
            v.req_capacity as nat,
            |j: int| v.req_entries[j].flags,
        ));
        let ghost q = mem@;
        let mut i: usize = 0;
        while i < cc
            invariant
                view_wf(v),
                self@.comp_entries == v.comp_entries,
                cc == v.comp_capacity,
                coff == spec_comp_entries_offset(v.req_capacity as int),
                q.len() == v.buf_size,
                i <= cc,
                mem@ == spec_put_completions(q, coff as int, v.comp_entries, i as nat),
                mem@.len() == q.len(),
            decreases cc - i,
        {
            let e = self.layout.comp_entries[i];
            let off: usize = coff + COMPLETION_ENTRY_SIZE * i;
            write_u32_at(mem, off, e.user_data);
            write_u32_at(mem, off + 4, e.result as u32);
            i = i + 1;
        }
        proof {
            let rcn = v.req_capacity as int;
            lemma_comp_entries_offset(rcn);
            assert(misses_request_flags(0, REQ_ENTRIES_OFFSET as int, rcn));
            lemma_request_flags_frame(
                h,
                v.req_entries,
                v.shared_flags,
                rcn as nat,
                0,
                REQ_ENTRIES_OFFSET as int,
            );
            lemma_completions_frame(
                q,
                coff as int,
                v.comp_entries,
                v.comp_capacity as nat,
                0,
                REQ_ENTRIES_OFFSET as int,
            );
        }
    }

    /// Stores the header fields that the kernel owns into `mem`: the request
    /// ring's head, the completion ring's tail, and both capacities and
    /// masks. The entries are left as they were.
    pub fn store_counters(&self, mem: &mut [u8])
        requires
            self.wf(),
            old(mem)@.len() == self@.buf_size,
        ensures
            final(mem)@ == spec_put_header(self@, old(mem)@),
            final(mem)@.len() == old(mem)@.len(),
            final(mem)@.subrange(REQ_ENTRIES_OFFSET as int, old(mem)@.len() as int) == old(
                mem,
            )@.subrange(REQ_ENTRIES_OFFSET as int, old(mem)@.len() as int),
    {
        let ghost v = self@;
        let ghost m0 = mem@;
        write_u32_at(mem, REQ_RING_HEAD_OFFSET as usize, self.layout.req_ring.head.get());
        write_u32_at(mem, COMP_RING_TAIL_OFFSET as usize, self.layout.comp_ring.tail.get());
        write_u32_at(mem, REQ_CAPACITY_OFFSET as usize, self.layout.req_capacity);
        write_u32_at(mem, REQ_CAPACITY_MASK_OFFSET as usize, self.layout.req_capacity_mask);
        write_u32_at(mem, COMP_CAPACITY_OFFSET as usize, self.layout.comp_capacity);
        write_u32_at(mem, COMP_CAPACITY_MASK_OFFSET as usize, self.layout.comp_capacity_mask);
        proof {
            lemma_comp_entries_offset(v.req_capacity as int);
            lemma_header_frame(v, m0, REQ_ENTRIES_OFFSET as int, m0.len() as int);
        }
    }
}

/// Storing a `u32` leaves the length, and every range of bytes apart from
/// the four it covers, as they were.
proof fn lemma_put_frame(m: Seq<u8>, off: int, x: u32, a: int, b: int)
    requires
        0 <= off,
        off + 4 <= m.len(),
        0 <= a <= b <= m.len(),
        b <= off || off + 4 <= a,
    ensures
        spec_put_u32(m, off, x).len() == m.len(),
        spec_put_u32(m, off, x).subrange(a, b) == m.subrange(a, b),
{
    vstd::bytes::lemma_auto_spec_u32_to_from_le_bytes();
    assert(spec_put_u32(m, off, x).subrange(a, b) =~= m.subrange(a, b));
}

/// A stored `u32` reads back.
proof fn lemma_put_read(m: Seq<u8>, off: int, x: u32)
    requires
        0 <= off,
        off + 4 <= m.len(),
    ensures
        spec_put_u32(m, off, x).len() == m.len(),
        spec_read_u32_at(spec_put_u32(m, off, x), off) == x,
{
    vstd::bytes::lemma_auto_spec_u32_to_from_le_bytes();
    assert(spec_put_u32(m, off, x).subrange(off, off + 4) =~= spec_u32_to_le_bytes(x));
}

/// Whether the bytes from `a` to `b` miss the `flags` of the first `n`
/// request entries.
pub open spec fn misses_request_flags(a: int, b: int, n: int) -> bool {
    forall|k: int|
        0 <= k < n ==> b <= REQ_ENTRIES_OFFSET + REQUEST_ENTRY_SIZE * k + 56 || #[trigger] (
        REQ_ENTRIES_OFFSET + REQUEST_ENTRY_SIZE * k + 60) <= a
}

proof fn lemma_request_flags_frame(
    m: Seq<u8>,
    e: Seq<RequestRingEntry>,
    sh: Seq<u32>,
    n: nat,
    a: int,
    b: int,
)
    requires
        REQ_ENTRIES_OFFSET + REQUEST_ENTRY_SIZE * n <= m.len(),
        0 <= a <= b <= m.len(),
        misses_request_flags(a, b, n as int),
    ensures
        spec_put_request_flags(m, e, sh, n).len() == m.len(),
        spec_put_request_flags(m, e, sh, n).subrange(a, b) == m.subrange(a, b),
    decreases n,
{
    if n > 0 {
        let k = n - 1;
        assert(b <= REQ_ENTRIES_OFFSET + REQUEST_ENTRY_SIZE * k + 56 || (REQ_ENTRIES_OFFSET
            + REQUEST_ENTRY_SIZE * k + 60) <= a);
        lemma_request_flags_frame(m, e, sh, (n - 1) as nat, a, b);
        if e[k].flags != sh[k] {
            lemma_put_frame(
                spec_put_request_flags(m, e, sh, (n - 1) as nat),
                REQ_ENTRIES_OFFSET + REQUEST_ENTRY_SIZE * k + 56,
                e[k].flags,
                a,
                b,
            );
        }
    }
}

proof fn lemma_request_flags_read(
    m: Seq<u8>,
    e: Seq<RequestRingEntry>,
    sh: Seq<u32>,
    n: nat,
    i: int,
)
    requires
        REQ_ENTRIES_OFFSET + REQUEST_ENTRY_SIZE * n <= m.len(),
        0 <= i < n,
    ensures
        spec_read_u32_at(
            spec_put_request_flags(m, e, sh, n),
            REQ_ENTRIES_OFFSET + REQUEST_ENTRY_SIZE * i + 56,
        ) == if e[i].flags != sh[i] {
            e[i].flags
        } else {
            spec_read_u32_at(m, REQ_ENTRIES_OFFSET + REQUEST_ENTRY_SIZE * i + 56)
        },
    decreases n,
{
    let k = n - 1;
    let off = REQ_ENTRIES_OFFSET + REQUEST_ENTRY_SIZE * i + 56;
    let prev = spec_put_request_flags(m, e, sh, (n - 1) as nat);
    lemma_request_flags_frame(m, e, sh, (n - 1) as nat, 0, 0);
    if i == k {
        if e[k].flags != sh[k] {
            lemma_put_read(prev, off, e[k].flags);
        } else {
            assert(misses_request_flags(off, off + 4, k));
            lemma_request_flags_frame(m, e, sh, (n - 1) as nat, off, off + 4);
        }
    } else {
        lemma_request_flags_read(m, e, sh, (n - 1) as nat, i);
        if e[k].flags != sh[k] {
            lemma_put_frame(
                prev,
                REQ_ENTRIES_OFFSET + REQUEST_ENTRY_SIZE * k + 56,
                e[k].flags,
                off,
                off + 4,
            );
        }
    }
}

/// Whether the bytes from `a` to `b` miss the first `n` completion entries
/// stored from `base` on.
pub open spec fn misses_completions(a: int, b: int, base: int, n: int) -> bool {
    b <= base || base + COMPLETION_ENTRY_SIZE * n <= a
}

proof fn lemma_completions_frame(
    m: Seq<u8>,
    base: int,
    e: Seq<CompletionRingEntry>,
    n: nat,
    a: int,
    b: int,
)
    requires
        0 <= base,
        base + COMPLETION_ENTRY_SIZE * n <= m.len(),
        0 <= a <= b <= m.len(),
        misses_completions(a, b, base, n as int),
    ensures
        spec_put_completions(m, base, e, n).len() == m.len(),
        spec_put_completions(m, base, e, n).subrange(a, b) == m.subrange(a, b),
    decreases n,
{
    if n > 0 {
        let k = n - 1;
        let off = base + COMPLETION_ENTRY_SIZE * k;
        lemma_completions_frame(m, base, e, (n - 1) as nat, a, b);
        let prev = spec_put_completions(m, base, e, (n - 1) as nat);
        let p1 = spec_put_u32(prev, off, e[k].spec_user_data());
        lemma_put_frame(prev, off, e[k].spec_user_data(), a, b);
        lemma_put_frame(p1, off + 4, e[k].spec_result() as u32, a, b);
    }
}

proof fn lemma_completions_read(m: Seq<u8>, base: int, e: Seq<CompletionRingEntry>, n: nat, i: int)
    requires
        0 <= base,
        base + COMPLETION_ENTRY_SIZE * n <= m.len(),
        0 <= i < n,
    ensures
        spec_decode_completion(
            spec_put_completions(m, base, e, n),
            base + COMPLETION_ENTRY_SIZE * i,
        ) == e[i],
    decreases n,
{
    let k = n - 1;
    let off = base + COMPLETION_ENTRY_SIZE * k;
    let prev = spec_put_completions(m, base, e, (n - 1) as nat);
    lemma_completions_frame(m, base, e, (n - 1) as nat, 0, 0);
    let p1 = spec_put_u32(prev, off, e[k].spec_user_data());
    let p2 = spec_put_u32(p1, off + 4, e[k].spec_result() as u32);
    let oi = base + COMPLETION_ENTRY_SIZE * i;
    if i == k {
        lemma_put_read(prev, off, e[k].spec_user_data());
        lemma_put_frame(p1, off + 4, e[k].spec_result() as u32, off, off + 4);
        lemma_put_read(p1, off + 4, e[k].spec_result() as u32);
        let r = e[k].spec_result();
        assert(((r as u32) as i32) == r) by (bit_vector);
    } else {
        lemma_completions_read(m, base, e, (n - 1) as nat, i);
        lemma_put_frame(prev, off, e[k].spec_user_data(), oi, oi + 4);
        lemma_put_frame(p1, off + 4, e[k].spec_result() as u32, oi, oi + 4);
        lemma_put_frame(prev, off, e[k].spec_user_data(), oi + 4, oi + 8);
        lemma_put_frame(p1, off + 4, e[k].spec_result() as u32, oi + 4, oi + 8);
    }
}

/// Whether the bytes from `a` to `b` miss the header fields that the kernel
/// stores.
pub open spec fn misses_header(a: int, b: int) -> bool {
    &&& (b <= 0 || 4 <= a)
    &&& (b <= 192 || 196 <= a)
    &&& (b <= 256 || 272 <= a)
}

proof fn lemma_header_frame(v: AsyncCallBufferView, m: Seq<u8>, a: int, b: int)
    requires
        272 <= m.len(),
        0 <= a <= b <= m.len(),
        misses_header(a, b),
    ensures
        spec_put_header(v, m).len() == m.len(),
        spec_put_header(v, m).subrange(a, b) == m.subrange(a, b),
{
    let m1 = spec_put_u32(m, 0, v.req_head);
    let m2 = spec_put_u32(m1, 192, v.comp_tail);
    let m3 = spec_put_u32(m2, 256, v.header_req_capacity);
    let m4 = spec_put_u32(m3, 260, v.header_req_capacity_mask);
    let m5 = spec_put_u32(m4, 264, v.header_comp_capacity);
    lemma_put_frame(m, 0, v.req_head, a, b);
    lemma_put_frame(m1, 192, v.comp_tail, a, b);
    lemma_put_frame(m2, 256, v.header_req_capacity, a, b);
    lemma_put_frame(m3, 260, v.header_req_capacity_mask, a, b);
    lemma_put_frame(m4, 264, v.header_comp_capacity, a, b);
    lemma_put_frame(m5, 268, v.header_comp_capacity_mask, a, b);
}

proof fn lemma_header_read(v: AsyncCallBufferView, m: Seq<u8>)
    requires
        272 <= m.len(),
    ensures
        spec_read_u32_at(spec_put_header(v, m), 0) == v.req_head,
        spec_read_u32_at(spec_put_header(v, m), 192) == v.comp_tail,
        spec_read_u32_at(spec_put_header(v, m), 256) == v.header_req_capacity,
        spec_read_u32_at(spec_put_header(v, m), 260) == v.header_req_capacity_mask,
        spec_read_u32_at(spec_put_header(v, m), 264) == v.header_comp_capacity,
        spec_read_u32_at(spec_put_header(v, m), 268) == v.header_comp_capacity_mask,
{
    let m1 = spec_put_u32(m, 0, v.req_head);
    let m2 = spec_put_u32(m1, 192, v.comp_tail);
    let m3 = spec_put_u32(m2, 256, v.header_req_capacity);
    let m4 = spec_put_u32(m3, 260, v.header_req_capacity_mask);
    let m5 = spec_put_u32(m4, 264, v.header_comp_capacity);
    let m6 = spec_put_u32(m5, 268, v.header_comp_capacity_mask);
    lemma_put_read(m, 0, v.req_head);
    lemma_put_read(m1, 192, v.comp_tail);
    lemma_put_read(m2, 256, v.header_req_capacity);
    lemma_put_read(m3, 260, v.header_req_capacity_mask);
    lemma_put_read(m4, 264, v.header_comp_capacity);
    lemma_put_read(m5, 268, v.header_comp_capacity_mask);
    // each field survives the stores after it
    lemma_put_frame(m1, 192, v.comp_tail, 0, 4);
    lemma_put_frame(m2, 256, v.header_req_capacity, 0, 4);
    lemma_put_frame(m3, 260, v.header_req_capacity_mask, 0, 4);
    lemma_put_frame(m4, 264, v.header_comp_capacity, 0, 4);
    lemma_put_frame(m5, 268, v.header_comp_capacity_mask, 0, 4);
    lemma_put_frame(m2, 256, v.header_req_capacity, 192, 196);
    lemma_put_frame(m3, 260, v.header_req_capacity_mask, 192, 196);
    lemma_put_frame(m4, 264, v.header_comp_capacity, 192, 196);
    lemma_put_frame(m5, 268, v.header_comp_capacity_mask, 192, 196);
    lemma_put_frame(m3, 260, v.header_req_capacity_mask, 256, 260);
    lemma_put_frame(m4, 264, v.header_comp_capacity, 256, 260);
    lemma_put_frame(m5, 268, v.header_comp_capacity_mask, 256, 260);
    lemma_put_frame(m4, 264, v.header_comp_capacity, 260, 264);
    lemma_put_frame(m5, 268, v.header_comp_capacity_mask, 260, 264);
    lemma_put_frame(m5, 268, v.header_comp_capacity_mask, 264, 268);
}

/// The completion entries start right after the last request entry, which
/// ends on a cache line.
proof fn lemma_comp_entries_offset(rc: int)
    requires
        0 <= rc,
    ensures
        spec_comp_entries_offset(rc) == REQ_ENTRIES_OFFSET + REQUEST_ENTRY_SIZE * rc,
{
    vstd::arithmetic::div_mod::lemma_fundamental_div_mod_converse(
        320 + 64 * rc + 63,
        64,
        5 + rc,
        63,
    );
}

/// Each `u64` and `u32` of a request entry other than its `flags` survives
/// the kernel's stores.
proof fn lemma_request_fields_kept(
    v: AsyncCallBufferView,
    m: Seq<u8>,
    f: Seq<u8>,
    c: Seq<u8>,
    st: Seq<u8>,
    a: int,
    b: int,
    i: int,
)
    requires
        view_wf(v),
        m.len() == v.buf_size,
        f == spec_put_request_flags(m, v.req_entries, v.shared_flags, v.req_capacity as nat),
        c == spec_put_completions(
            f,
            spec_comp_entries_offset(v.req_capacity as int),
            v.comp_entries,
            v.comp_capacity as nat,
        ),
        st == spec_put_header(v, c),
        0 <= i < v.req_capacity,
        REQ_ENTRIES_OFFSET + REQUEST_ENTRY_SIZE * i <= a <= b,
        (b <= REQ_ENTRIES_OFFSET + REQUEST_ENTRY_SIZE * i + 56) || (a
            == REQ_ENTRIES_OFFSET + REQUEST_ENTRY_SIZE * i + 60 && b == a + 4),
    ensures
        st.subrange(a, b) == m.subrange(a, b),
{
    let rc = v.req_capacity as int;
    let coff = spec_comp_entries_offset(rc);
    lemma_comp_entries_offset(rc);
    assert(misses_request_flags(a, b, rc));
    lemma_request_flags_frame(m, v.req_entries, v.shared_flags, rc as nat, a, b);
    lemma_completions_frame(f, coff, v.comp_entries, v.comp_capacity as nat, a, b);
    lemma_header_frame(v, c, a, b);
}

/// What the kernel stores into the shared memory it reads back, and what
/// the user process writes there is left as it was: loading after storing
/// gives the kernel's counters and completions, the flags that the kernel
/// changed, and for every other flag what the memory held before the store,
/// with the user's tail, head and request fields from before the store; the
/// header holds the kernel's capacities and masks.
pub proof fn lemma_load_after_store(v: AsyncCallBufferView, m: Seq<u8>)
    requires
        view_wf(v),
        m.len() == v.buf_size,
    ensures
        ({
            let st = spec_stored(v, m);
            let l = spec_loaded(v, st);
            let u = spec_loaded(v, m);
            &&& st.len() == m.len()
            &&& l.req_head == v.req_head
            &&& l.comp_tail == v.comp_tail
            &&& l.req_tail == u.req_tail
            &&& l.comp_head == u.comp_head
            &&& l.req_entries == Seq::new(
                v.req_capacity as nat,
                |i: int|
                    u.req_entries[i].with_flags(
                        if v.req_entries[i].flags != v.shared_flags[i] {
                            v.req_entries[i].flags
                        } else {
                            u.req_entries[i].flags
                        },
                    ),
            )
            &&& l.comp_entries == v.comp_entries
            &&& spec_read_u32_at(st, REQ_CAPACITY_OFFSET as int) == v.req_capacity
            &&& spec_read_u32_at(st, REQ_CAPACITY_MASK_OFFSET as int) == v.req_capacity - 1
            &&& spec_read_u32_at(st, COMP_CAPACITY_OFFSET as int) == v.comp_capacity
            &&& spec_read_u32_at(st, COMP_CAPACITY_MASK_OFFSET as int) == v.comp_capacity - 1
        }),
{
    let rc = v.req_capacity as int;
    let cc = v.comp_capacity as int;
    let coff = spec_comp_entries_offset(rc);
    lemma_comp_entries_offset(rc);
    let f = spec_put_request_flags(m, v.req_entries, v.shared_flags, rc as nat);
    let c = spec_put_completions(f, coff, v.comp_entries, cc as nat);
    let st = spec_put_header(v, c);
    lemma_request_flags_frame(m, v.req_entries, v.shared_flags, rc as nat, 0, 0);
    lemma_completions_frame(f, coff, v.comp_entries, cc as nat, 0, 0);
    lemma_header_frame(v, c, 0, 0);
    lemma_header_read(v, c);
    // the user's counters are untouched
    let user_offs: Seq<int> = seq![64int, 128];
    assert forall|j: int| 0 <= j < 2 implies st.subrange(user_offs[j], user_offs[j] + 4)
        == m.subrange(user_offs[j], user_offs[j] + 4) by {
        let a = user_offs[j];
        assert(misses_request_flags(a, a + 4, rc));
        lemma_request_flags_frame(m, v.req_entries, v.shared_flags, rc as nat, a, a + 4);
        lemma_completions_frame(f, coff, v.comp_entries, cc as nat, a, a + 4);
        lemma_header_frame(v, c, a, a + 4);
    }
    assert(st.subrange(64, 68) == m.subrange(64, 68));
    assert(st.subrange(128, 132) == m.subrange(128, 132));
    // request entries
    let l = spec_loaded(v, st);
    let u = spec_loaded(v, m);
    assert forall|i: int| 0 <= i < rc implies l.req_entries[i] == u.req_entries[i].with_flags(
        if v.req_entries[i].flags != v.shared_flags[i] {
            v.req_entries[i].flags
        } else {
            u.req_entries[i].flags
        },
    ) by {
        let off = REQ_ENTRIES_OFFSET + REQUEST_ENTRY_SIZE * i;
        lemma_request_fields_kept(v, m, f, c, st, off, off + 8, i);
        lemma_request_fields_kept(v, m, f, c, st, off + 8, off + 16, i);
        lemma_request_fields_kept(v, m, f, c, st, off + 16, off + 24, i);
        lemma_request_fields_kept(v, m, f, c, st, off + 24, off + 32, i);
        lemma_request_fields_kept(v, m, f, c, st, off + 32, off + 40, i);
        lemma_request_fields_kept(v, m, f, c, st, off + 40, off + 48, i);
        lemma_request_fields_kept(v, m, f, c, st, off + 48, off + 56, i);
        lemma_request_fields_kept(v, m, f, c, st, off + 60, off + 64, i);
        lemma_request_flags_read(m, v.req_entries, v.shared_flags, rc as nat, i);
        lemma_completions_frame(f, coff, v.comp_entries, cc as nat, off + 56, off + 60);
        lemma_header_frame(v, c, off + 56, off + 60);
    }
    assert(l.req_entries =~= Seq::new(
        v.req_capacity as nat,
        |i: int|
            u.req_entries[i].with_flags(
                if v.req_entries[i].flags != v.shared_flags[i] {
                    v.req_entries[i].flags
                } else {
                    u.req_entries[i].flags
                },
            ),
    ));
    assert forall|i: int| 0 <= i < cc implies l.comp_entries[i] == v.comp_entries[i] by {
        let off = coff + COMPLETION_ENTRY_SIZE * i;
        lemma_completions_read(f, coff, v.comp_entries, cc as nat, i);
        lemma_header_frame(v, c, off, off + 4);
        lemma_header_frame(v, c, off + 4, off + 8);
    }
    assert(l.comp_entries =~= v.comp_entries);
}

/// A request entry is read in the user's layout: the call number at the
/// entry's first byte, then the six arguments in order, eight bytes each,
/// then the `flags` and the `user_data`, four bytes each, all
/// little-endian.
pub proof fn lemma_decode_request_layout(m: Seq<u8>, off: int)
    ensures
        spec_decode_request(m, off).syscall_id == spec_u64_from_le_bytes(m.subrange(off, off + 8)),
        spec_decode_request(m, off).arg0 == spec_u64_from_le_bytes(m.subrange(off + 8, off + 16)),
        spec_decode_request(m, off).arg1 == spec_u64_from_le_bytes(m.subrange(off + 16, off + 24)),
        spec_decode_request(m, off).arg2 == spec_u64_from_le_bytes(m.subrange(off + 24, off + 32)),
        spec_decode_request(m, off).arg3 == spec_u64_from_le_bytes(m.subrange(off + 32, off + 40)),
        spec_decode_request(m, off).arg4 == spec_u64_from_le_bytes(m.subrange(off + 40, off + 48)),
        spec_decode_request(m, off).arg5 == spec_u64_from_le_bytes(m.subrange(off + 48, off + 56)),
        spec_decode_request(m, off).flags == spec_u32_from_le_bytes(m.subrange(off + 56, off + 60)),
        spec_decode_request(m, off).user_data == spec_u32_from_le_bytes(
            m.subrange(off + 60, off + 64),
        ),
{
}

/// A completion entry is read in the user's layout: the `user_data` at the
/// entry's first byte, then the result, four bytes each, little-endian, the
/// result as a signed number.
pub proof fn lemma_decode_completion_layout(m: Seq<u8>, off: int)
    ensures
        spec_decode_completion(m, off).spec_user_data() == spec_u32_from_le_bytes(
            m.subrange(off, off + 4),
        ),
        spec_decode_completion(m, off).spec_result() == spec_u32_from_le_bytes(
            m.subrange(off + 4, off + 8),
        ) as i32,
{
}

/// Loading reads every counter and entry from where the user's layout puts
/// it: the request head at byte 0, the request tail at 64, the completion
/// head at 128, the completion tail at 192, request entry `i` at
/// `320 + 64 * i`, and completion entry `j` right after the last request
/// entry, at `320 + 64 * capacity + 8 * j`. The capacities, masks and size
/// stay the kernel's own, and the flags are then known as memory holds them.
pub proof fn lemma_loaded_layout(v: AsyncCallBufferView, m: Seq<u8>, i: int, j: int)
    requires
        view_wf(v),
        m.len() == v.buf_size,
        0 <= i < v.req_capacity,
        0 <= j < v.comp_capacity,
    ensures
        ({
            let l = spec_loaded(v, m);
            let e = 320 + 64 * i;
            let c = 320 + 64 * v.req_capacity + 8 * j;
            &&& l.req_head == spec_u32_from_le_bytes(m.subrange(0, 4))
            &&& l.req_tail == spec_u32_from_le_bytes(m.subrange(64, 68))
            &&& l.comp_head == spec_u32_from_le_bytes(m.subrange(128, 132))
            &&& l.comp_tail == spec_u32_from_le_bytes(m.subrange(192, 196))
            &&& l.req_entries.len() == v.req_capacity
            &&& l.comp_entries.len() == v.comp_capacity
            &&& l.req_entries[i] == spec_decode_request(m, e)
            &&& l.shared_flags[i] == spec_u32_from_le_bytes(m.subrange(e + 56, e + 60))
            &&& l.comp_entries[j].spec_user_data() == spec_u32_from_le_bytes(
                m.subrange(c, c + 4),
            )
            &&& l.comp_entries[j].spec_result() == spec_u32_from_le_bytes(
                m.subrange(c + 4, c + 8),
            ) as i32
            &&& l.req_capacity == v.req_capacity && l.comp_capacity == v.comp_capacity
            &&& l.req_capacity_mask == v.req_capacity_mask
            &&& l.comp_capacity_mask == v.comp_capacity_mask
            &&& l.buf_size == v.buf_size
        }),
{
    lemma_comp_entries_offset(v.req_capacity as int);
}

/// Storing puts every field the kernel owns where the user's layout puts
/// it: the request head at byte 0, the completion tail at 192, the
/// capacities and masks at 256 to 272, completion entry `j` at
/// `320 + 64 * capacity + 8 * j`; a request `flags` at byte 56 of its entry
/// where the kernel changed it, and as memory held it otherwise. The
/// request tail, the completion head and every other byte of the request
/// entries are left as memory held them.
pub proof fn lemma_stored_layout(v: AsyncCallBufferView, m: Seq<u8>, i: int, j: int)
    requires
        view_wf(v),
        m.len() == v.buf_size,
        0 <= i < v.req_capacity,
        0 <= j < v.comp_capacity,
    ensures
        ({
            let st = spec_stored(v, m);
            let e = 320 + 64 * i;
            let c = 320 + 64 * v.req_capacity + 8 * j;
            &&& st.len() == m.len()
            &&& spec_u32_from_le_bytes(st.subrange(0, 4)) == v.req_head
            &&& spec_u32_from_le_bytes(st.subrange(192, 196)) == v.comp_tail
            &&& spec_u32_from_le_bytes(st.subrange(256, 260)) == v.req_capacity
            &&& spec_u32_from_le_bytes(st.subrange(260, 264)) == v.req_capacity - 1
            &&& spec_u32_from_le_bytes(st.subrange(264, 268)) == v.comp_capacity
            &&& spec_u32_from_le_bytes(st.subrange(268, 272)) == v.comp_capacity - 1
            &&& spec_u32_from_le_bytes(st.subrange(c, c + 4))
                == v.comp_entries[j].spec_user_data()
            &&& spec_u32_from_le_bytes(st.subrange(c + 4, c + 8)) as i32
                == v.comp_entries[j].spec_result()
            &&& spec_u32_from_le_bytes(st.subrange(e + 56, e + 60)) == if v.req_entries[i].flags
                != v.shared_flags[i] {
                v.req_entries[i].flags
            } else {
                spec_u32_from_le_bytes(m.subrange(e + 56, e + 60))
            }
            &&& spec_u32_from_le_bytes(st.subrange(64, 68)) == spec_u32_from_le_bytes(
                m.subrange(64, 68),
            )
            &&& spec_u32_from_le_bytes(st.subrange(128, 132)) == spec_u32_from_le_bytes(
                m.subrange(128, 132),
            )
            &&& spec_decode_request(st, e) == spec_decode_request(m, e).with_flags(
                spec_decode_request(st, e).flags,
            )
        }),
{
    lemma_load_after_store(v, m);
    lemma_loaded_layout(v, spec_stored(v, m), i, j);
    lemma_loaded_layout(v, m, i, j);
}

/// The numbers that stand for the states and reasons are those of the
/// user's interface.
pub proof fn lemma_state_and_reason_numbers()
    ensures
        AsyncCallState::Null.value() == 0,
        AsyncCallState::Init.value() == 1,
        AsyncCallState::Working.value() == 2,
        AsyncCallState::Done.value() == 3,
        PendingReason::RequestNotReady.value() == 0,
        PendingReason::SyscallPending.value() == 1,
        PendingReason::CompBufferFull.value() == 2,
        PendingReason::Invalid.value() == 3,
{
}

/// The count between two counters is the number of steps from the head to
/// the tail, modulo 2^32; and `k` steps past a counter count `k` from it.
pub proof fn lemma_ring_count_steps(head: u32, tail: u32, k: int)
    ensures
        0 <= ring_count(head, tail) < 0x1_0000_0000,
        (head + ring_count(head, tail)) % 0x1_0000_0000 == tail,
        0 <= k < 0x1_0000_0000 ==> ring_count(head, ring_advance(head, k)) == k,
        0 <= k ==> ring_advance(head, k) as int == (head + k) % 0x1_0000_0000,
{
    let c = ring_count(head, tail);
    if head <= tail {
        vstd::arithmetic::div_mod::lemma_small_mod((head + c) as nat, 0x1_0000_0000nat);
    } else {
        vstd::arithmetic::div_mod::lemma_mod_sub_multiples_vanish(head + c, 0x1_0000_0000);
        vstd::arithmetic::div_mod::lemma_small_mod(tail as nat, 0x1_0000_0000nat);
    }
    if 0 <= k < 0x1_0000_0000 {
        lemma_count_advance(head, k);
    }
    if 0 <= k {
        vstd::arithmetic::div_mod::lemma_mod_bound(head + k, 0x1_0000_0000);
    }
}

/// A buffer's size is its header, its request entries and its completion
/// entries laid end to end: 320 bytes, 64 per request entry and 8 per
/// completion entry.
pub proof fn lemma_buffer_size(req_capacity: int, comp_capacity: int)
    requires
        0 <= req_capacity,
    ensures
        spec_buffer_size(req_capacity, comp_capacity) == 320 + 64 * req_capacity + 8
            * comp_capacity,
        spec_comp_entries_offset(req_capacity) == 320 + 64 * req_capacity,
{
    lemma_comp_entries_offset(req_capacity);
}

/// The capacity that a ring gets is a power of two, at least what was
/// asked and less than twice it.
pub proof fn lemma_next_power_of_two_bounds(x: int, r: u32)
    requires
        1 <= x,
        is_next_power_of_two(x, r),
    ensures
        r & ((r - 1) as u32) == 0,
        x <= r < 2 * x,
{
    assert(r & ((r - 1) as u32) == 0) by (bit_vector)
        requires
            r == 1 || r == 2 || r == 4 || r == 8 || r == 16 || r == 32 || r == 64 || r == 128
                || r == 256 || r == 512 || r == 1024 || r == 2048 || r == 4096 || r == 8192
                || r == 16384 || r == 32768,
    ;
}

} // verus!
