//! Reserving, releasing, touching, spilling and inspecting blocks.

use crate::abi::{
    PolarisBlockGetStateArg, PolarisBlockReleaseArg, PolarisBlockReserveArg, PolarisBlockState,
    PolarisBlockTouchArg, PolarisPhase, PolarisSpillBlockArg, POLARIS_DEFAULT_FAULT_TIMEOUT_MS,
    POLARIS_RELEASE_FLAG_CALLER_OWNS_BACKING, POLARIS_RESERVE_FLAG_DEFER_FAULT,
    POLARIS_RESERVE_FLAG_OVERWRITE,
};
use crate::errno::{EBUSY, EINVAL, EIO, ENODEV, ENOENT, ENOMEM};
use crate::fault::{FaultStep, GpuFault};
use crate::num::{sat_add, sat_mul, saturating_mul};
use crate::policy::contains_id;
use crate::seqs::{any, as_index, find, first_index, lemma_first_index_is, retain};
use crate::sessions::mapping_outside;
use crate::state::{block_is, PolarisInner, PolarisView};
use crate::types::{
    PolarisBlock, PolarisBlockFlags, PolarisBlockMapping, SessionView,
    POLARIS_MAX_PENDING_DECISIONS,
};
use vstd::prelude::*;

verus! {

// ─── Reserving ──────────────────────────────────────────────────────────────

/// Blocks that a session reserved and that hold a token of `start..end`.
pub open spec fn own_overlapping(session_id: u64, start: int, end: int) -> spec_fn(
    PolarisBlock,
) -> bool {
    |b: PolarisBlock| b.session_id == session_id && b.overlaps_tokens(start, end)
}

/// Blocks on a list that hold a token of `start..end`.
pub open spec fn listed_overlapping(ids: Seq<u64>, start: int, end: int) -> spec_fn(
    PolarisBlock,
) -> bool {
    |b: PolarisBlock| ids.contains(b.block_id) && b.overlaps_tokens(start, end)
}

/// The block in a session's way: one of its own before one that it inherited.
pub open spec fn block_in_the_way(v: PolarisView, s: SessionView, start: int, end: int) -> Option<
    int,
> {
    match first_index(v.blocks, own_overlapping(s.session_id, start, end)) {
        Some(i) => Some(i),
        None => first_index(v.blocks, listed_overlapping(s.block_ids, start, end)),
    }
}

/// The address of a session's token.
pub open spec fn token_address(s: SessionView, token: u32) -> int {
    s.gpu_vas_base + token * s.bytes_per_token
}

/// The flag that lets a reservation take the place of another.
pub open spec fn overwrites(arg: PolarisBlockReserveArg) -> bool {
    arg.flags & POLARIS_RESERVE_FLAG_OVERWRITE != 0
}

/// The flag that leaves the block to be made resident by a later fault.
pub open spec fn defers(arg: PolarisBlockReserveArg) -> bool {
    arg.flags & POLARIS_RESERVE_FLAG_DEFER_FAULT != 0
}

/// A block for tokens that are reserved, with no memory yet.
pub open spec fn reserved_block(
    v: PolarisView,
    s: SessionView,
    arg: PolarisBlockReserveArg,
    state: PolarisBlockState,
    cow_src_handle: u64,
    cow_src_block_id: u64,
) -> PolarisBlock {
    PolarisBlock {
        block_id: v.next_block_id,
        session_id: arg.session_id,
        token_start: arg.token_start,
        token_count: arg.token_count,
        home_gpu: s.home_gpu,
        gpu_vaddr: token_address(s, arg.token_start) as u64,
        gpu_phys_handle: 0,
        rm_control_fd: 0,
        rm_h_client: 0,
        rm_h_memory: 0,
        rm_backing_length: 0,
        rm_backing_offset: 0,
        cpu_buf_addr: 0,
        size_bytes: sat_mul(arg.token_count as u64, s.bytes_per_token),
        refcount: 1,
        state,
        flags: PolarisBlockFlags { shared: false },
        phase: PolarisPhase::of_code(arg.phase),
        last_touch_ns: 0,
        map_time_ns: 0,
        cow_src_handle,
        cow_src_block_id,
        map_src_handle: 0,
        retry_count: 0,
        pending_decision_id: 0,
        pending_fault_id: 0,
        pending_generation: 0,
        fault_timeout_ms: POLARIS_DEFAULT_FAULT_TIMEOUT_MS,
        waiter: 0,
    }
}

/// The block that a private copy of block `b` names as its source: none where a
/// handle names the memory.
pub open spec fn copied_block(b: PolarisBlock) -> u64 {
    if b.gpu_phys_handle == 0 && b.rm_backed() {
        b.block_id
    } else {
        0
    }
}

/// Ids equal to one.
pub open spec fn id_is(id: u64) -> spec_fn(u64) -> bool {
    |x: u64| x == id
}

/// A list with one id in the place of another, or at the end where the other is
/// not on it.
pub open spec fn exchanged(ids: Seq<u64>, out: u64, into: u64) -> Seq<u64> {
    match first_index(ids, id_is(out)) {
        Some(k) => ids.update(k, into),
        None => ids.push(into),
    }
}

/// The answer to a reservation.
pub open spec fn reserve_reply(s: SessionView, arg: PolarisBlockReserveArg, block_id: u64) -> PolarisBlockReserveArg {
    PolarisBlockReserveArg {
        block_id,
        gpu_vaddr: token_address(s, arg.token_start) as u64,
        ..arg
    }
}

/// The fault that makes a reserved block resident.
pub open spec fn reserve_fault(s: SessionView, arg: PolarisBlockReserveArg, access_type: u32) -> GpuFault {
    GpuFault {
        gpu_id: s.home_gpu,
        rm_client_token: 0,
        va_space_token: 0,
        fault_address: token_address(s, arg.token_start) as u64,
        access_type,
    }
}

/// The state after a block is entered under the next id.
pub open spec fn entering_block(v: PolarisView, b: PolarisBlock) -> PolarisView {
    PolarisView {
        next_block_id: (v.next_block_id + 1) as u64,
        blocks: v.blocks.push(b),
        ..v
    }
}

/// The block is to be made resident at once: one that is entered anew and not left
/// to a later fault, a private copy, or one used anew that is not resident.
pub open spec fn raises_fault(v: PolarisView, s: SessionView, arg: PolarisBlockReserveArg) -> bool {
    match block_in_the_way(
        v,
        s,
        arg.token_start as int,
        arg.token_start + arg.token_count,
    ) {
        None => !defers(arg),
        Some(i) => overwrites(arg) && (v.blocks[i].refcount > 1 || !(v.blocks[i].state is Resident
            || defers(arg))),
    }
}

/// What comes of a reservation: the answer, the fault to take up next (if the
/// block is to be made resident now), and the state. Tokens that are reserved
/// already are refused, unless they are to be overwritten: then a shared block
/// is replaced for this session by a private copy, and a private one is used
/// anew. A reservation that would have a fault add to a full queue is refused
/// before anything is entered.
pub open spec fn reserving(v: PolarisView, arg: PolarisBlockReserveArg) -> (Result<
    (PolarisBlockReserveArg, Option<GpuFault>),
    i32,
>, PolarisView) {
    if v.daemon_attached == 0 {
        (Err(ENODEV), v)
    } else {
        match v.find_session(arg.session_id) {
            None => (Err(ENOENT), v),
            Some(k) => {
                let s = v.sessions[k];
                let start = arg.token_start as int;
                let end = arg.token_start + arg.token_count;
                if v.queue_is_full() && raises_fault(v, s, arg) {
                    (Err(ENOMEM), v)
                } else {
                    match block_in_the_way(v, s, start, end) {
                        None => (
                            Ok(
                                (
                                    reserve_reply(s, arg, v.next_block_id),
                                    if defers(arg) {
                                        None
                                    } else {
                                        Some(reserve_fault(s, arg, 0))
                                    },
                                ),
                            ),
                            PolarisView {
                                sessions: v.sessions.update(
                                    k,
                                    SessionView { block_ids: s.block_ids.push(v.next_block_id), ..s },
                                ),
                                ..entering_block(
                                    v,
                                    reserved_block(v, s, arg, PolarisBlockState::Unmapped, 0, 0),
                                )
                            },
                        ),
                        Some(i) => {
                            let b = v.blocks[i];
                            if !overwrites(arg) {
                                (Err(EINVAL), v)
                            } else if b.refcount > 1 {
                                (
                                    Ok(
                                        (
                                            reserve_reply(s, arg, v.next_block_id),
                                            Some(reserve_fault(s, arg, 1)),
                                        ),
                                    ),
                                    PolarisView {
                                        sessions: v.sessions.update(
                                            k,
                                            SessionView {
                                                block_ids: exchanged(
                                                    s.block_ids,
                                                    b.block_id,
                                                    v.next_block_id,
                                                ),
                                                ..s
                                            },
                                        ),
                                        ..entering_block(
                                            v.with_block(i, b.with_reference_dropped()),
                                            reserved_block(
                                                v,
                                                s,
                                                arg,
                                                PolarisBlockState::CowPending,
                                                b.gpu_phys_handle,
                                                copied_block(b),
                                            ),
                                        )
                                    },
                                )
                            } else {
                                (
                                    Ok(
                                        (
                                            reserve_reply(s, arg, b.block_id),
                                            if b.state is Resident || defers(arg) {
                                                None
                                            } else {
                                                Some(reserve_fault(s, arg, 0))
                                            },
                                        ),
                                    ),
                                    v.with_block(
                                        i,
                                        PolarisBlock {
                                            token_start: arg.token_start,
                                            token_count: arg.token_count,
                                            size_bytes: sat_mul(
                                                arg.token_count as u64,
                                                s.bytes_per_token,
                                            ),
                                            gpu_vaddr: token_address(s, arg.token_start) as u64,
                                            ..b.without_rm_backing()
                                        },
                                    ),
                                )
                            }
                        },
                    }
                }
            },
        }
    }
}

/// The counters and the address arithmetic have room for a reservation.
pub open spec fn reserve_fits(v: PolarisView, arg: PolarisBlockReserveArg) -> bool {
    &&& v.next_block_id < u64::MAX
    &&& v.find_session(arg.session_id) matches Some(k) ==> token_address(
        v.sessions[k],
        arg.token_start,
    ) <= u64::MAX
}

// ─── Releasing ──────────────────────────────────────────────────────────────

/// Blocks on a list with exactly the tokens.
pub open spec fn listed_exactly(ids: Seq<u64>, start: u32, count: u32) -> spec_fn(
    PolarisBlock,
) -> bool {
    |b: PolarisBlock| ids.contains(b.block_id) && b.token_start == start && b.token_count == count
}

/// What comes of a release: a shared block loses a reference and the mappings
/// at the session's place of it; memory that the executor holds is to be freed,
/// unless the caller keeps it; any other block goes at once. Either way the
/// session no longer lists it.
pub open spec fn releasing(v: PolarisView, arg: PolarisBlockReleaseArg) -> (Result<
    (),
    i32,
>, PolarisView) {
    match v.find_session(arg.session_id) {
        None => (Err(ENOENT), v),
        Some(k) => {
            let s = v.sessions[k];
            match first_index(
                v.blocks,
                listed_exactly(s.block_ids, arg.token_start, arg.token_count),
            ) {
                None => (Err(ENOENT), v),
                Some(i) => {
                    let b = v.blocks[i];
                    let start = sat_add(
                        s.gpu_vas_base,
                        sat_mul(arg.token_start as u64, s.bytes_per_token),
                    );
                    let kept = arg.flags & POLARIS_RELEASE_FLAG_CALLER_OWNS_BACKING != 0;
                    if b.refcount > 1 {
                        (
                            Ok(()),
                            PolarisView {
                                block_mappings: v.block_mappings.filter(
                                    mapping_outside(
                                        b.block_id,
                                        s.home_gpu,
                                        start,
                                        sat_add(start, b.size_bytes),
                                    ),
                                ),
                                ..v.with_block(i, b.with_reference_dropped())
                            }.without_listing(arg.session_id, b.block_id),
                        )
                    } else if b.state is FreePending {
                        (Err(EBUSY), v)
                    } else if b.needs_free() && !kept && v.daemon_attached > 0 {
                        match v.queue_free(i) {
                            (Err(e), w) => (Err(e), w),
                            (Ok(_), w) => (
                                Ok(()),
                                w.forgetting_static_blocks_of(b.block_id).without_mappings_of(
                                    b.block_id,
                                ).without_listing(arg.session_id, b.block_id),
                            ),
                        }
                    } else {
                        let w = v.accounting_removal(b).forgetting_static_blocks_of(b.block_id);
                        (
                            Ok(()),
                            PolarisView { blocks: w.blocks.remove(i), ..w }.without_mappings_of(
                                b.block_id,
                            ).without_listing(arg.session_id, b.block_id),
                        )
                    }
                },
            }
        },
    }
}

// ─── Touching ───────────────────────────────────────────────────────────────

/// Ids on a list, and after them those of a session's own blocks among the
/// first `n` that hold a token of `start..end` and are not on it yet.
pub open spec fn ids_to_touch(
    listed: Seq<u64>,
    blocks: Seq<PolarisBlock>,
    session_id: u64,
    start: int,
    end: int,
    n: int,
) -> Seq<u64>
    decreases n,
{
    if n <= 0 {
        listed
    } else {
        let before = ids_to_touch(listed, blocks, session_id, start, end, n - 1);
        let b = blocks[n - 1];
        if own_overlapping(session_id, start, end)(b) && !before.contains(b.block_id) {
            before.push(b.block_id)
        } else {
            before
        }
    }
}

/// The blocks after those with the ids are touched, as far as they hold a token
/// of `start..end`.
pub open spec fn touched_ids(
    blocks: Seq<PolarisBlock>,
    ids: Seq<u64>,
    start: int,
    end: int,
    now: u64,
) -> Seq<PolarisBlock>
    decreases ids.len(),
{
    if ids.len() == 0 {
        blocks
    } else {
        let before = touched_ids(blocks, ids.drop_last(), start, end, now);
        match first_index(before, block_is(ids.last())) {
            Some(i) => if before[i].overlaps_tokens(start, end) {
                before.update(i, PolarisBlock { last_touch_ns: now, ..before[i] })
            } else {
                before
            },
            None => before,
        }
    }
}

/// The state after tokens of a session were used.
pub open spec fn touching(v: PolarisView, arg: PolarisBlockTouchArg, now: u64) -> PolarisView {
    let start = arg.token_start as int;
    let end = arg.token_start + arg.token_count;
    let listed = match v.find_session(arg.session_id) {
        Some(k) => v.sessions[k].block_ids,
        None => Seq::empty(),
    };
    let ids = ids_to_touch(listed, v.blocks, arg.session_id, start, end, v.blocks.len() as int);
    PolarisView { blocks: touched_ids(v.blocks, ids, start, end, now), ..v }
}

// ─── Inspecting ─────────────────────────────────────────────────────────────

/// Blocks that a session reserved from a token on.
pub open spec fn own_at(session_id: u64, token_start: u32) -> spec_fn(PolarisBlock) -> bool {
    |b: PolarisBlock| b.session_id == session_id && b.token_start == token_start
}

/// The block with an id, if it starts at a token.
pub open spec fn named_at(id: u64, token_start: u32) -> spec_fn(PolarisBlock) -> bool {
    |b: PolarisBlock| b.block_id == id && b.token_start == token_start
}

/// Ids of blocks that start at a token.
pub open spec fn names_block_at(blocks: Seq<PolarisBlock>, token_start: u32) -> spec_fn(u64) -> bool {
    |id: u64| any(blocks, named_at(id, token_start))
}

/// The block that a session sees at a token: one of its own before one that it
/// inherited.
pub open spec fn block_at(v: PolarisView, session_id: u64, token_start: u32) -> Option<int> {
    match first_index(v.blocks, own_at(session_id, token_start)) {
        Some(i) => Some(i),
        None => match v.find_session(session_id) {
            None => None,
            Some(k) => {
                let ids = v.sessions[k].block_ids;
                match first_index(ids, names_block_at(v.blocks, token_start)) {
                    None => None,
                    Some(j) => first_index(v.blocks, named_at(ids[j], token_start)),
                }
            },
        },
    }
}

/// What a query for the block that holds a token is answered.
pub open spec fn state_told(v: PolarisView, arg: PolarisBlockGetStateArg) -> Result<
    PolarisBlockGetStateArg,
    i32,
> {
    match block_at(v, arg.session_id, arg.token_start) {
        None => Err(ENOENT),
        Some(i) => {
            let b = v.blocks[i];
            Ok(
                PolarisBlockGetStateArg {
                    block_id: b.block_id,
                    state: b.state.code(),
                    refcount: b.refcount,
                    gpu_vaddr: b.gpu_vaddr,
                    ..arg
                },
            )
        },
    }
}

// ─── Spilling ───────────────────────────────────────────────────────────────

/// What comes of asking for a block to be moved to host memory: the decision,
/// or zero where it is there already.
pub open spec fn spilling(v: PolarisView, block_id: u64) -> (Result<u64, i32>, PolarisView) {
    if block_id == 0 {
        (Err(EINVAL), v)
    } else {
        match v.find_block(block_id) {
            None => (Err(ENOENT), v),
            Some(i) => match v.blocks[i].state {
                PolarisBlockState::CpuOffloaded => (Ok(0), v),
                PolarisBlockState::Resident => v.queue_offload(i),
                PolarisBlockState::Unmapped | PolarisBlockState::Evicted => (Err(ENOENT), v),
                _ => (Err(EBUSY), v),
            },
        }
    }
}

// ─── Handling ───────────────────────────────────────────────────────────────

/// What a fault that a reservation raised means for it: wait, or fail where the
/// fault cannot be served.
pub open spec fn reserve_fault_told(step: Result<FaultStep, i32>) -> Result<FaultStep, i32> {
    match step {
        Err(e) => Err(e),
        Ok(s) => if s is Wait {
            Ok(s)
        } else {
            Err(EIO)
        },
    }
}

/// What a fault that a reservation raised means for it: wait, or fail where the
/// fault cannot be served.
pub fn reserve_fault_outcome(step: Result<FaultStep, i32>) -> (r: Result<FaultStep, i32>)
    ensures
        r == reserve_fault_told(step),
{
    match step {
        Err(e) => Err(e),
        Ok(s) => match s {
            FaultStep::Wait { .. } => Ok(s),
            _ => Err(EIO),
        },
    }
}

impl PolarisInner {
    /// Reserve tokens of a session. Where a fault comes back, take it up next,
    /// and let `reserve_fault_outcome` judge it.
    pub fn block_reserve(&mut self, arg: PolarisBlockReserveArg) -> (r: Result<
        (PolarisBlockReserveArg, Option<GpuFault>),
        i32,
    >)
        requires
            reserve_fits(old(self)@, arg),
        ensures
            (r, final(self)@) == reserving(old(self)@, arg),
    {
        let ghost v = self@;
        if self.daemon_attached == 0 {
            return Err(ENODEV);
        }
        let k: usize = match self.find_session(arg.session_id) {
            Some(k) => k,
            None => {
                return Err(ENOENT);
            },
        };
        let ghost s = v.sessions[k as int];
        assert(s == self.sessions@[k as int]@);
        assert(s.session_id == arg.session_id);
        let home_gpu: u32 = self.sessions[k].home_gpu;
        let bytes_per_token: u64 = self.sessions[k].bytes_per_token;
        let gpu_vas_base: u64 = self.sessions[k].gpu_vas_base;
        assert(arg.token_start * s.bytes_per_token >= 0) by (nonlinear_arith)
            requires
                arg.token_start >= 0,
                s.bytes_per_token >= 0,
        ;
        let gpu_vaddr: u64 = gpu_vas_base + (arg.token_start as u64) * bytes_per_token;
        let size_bytes: u64 = saturating_mul(arg.token_count as u64, bytes_per_token);
        let req_start: u64 = arg.token_start as u64;
        let req_end: u64 = req_start + arg.token_count as u64;
        let overwrite = arg.flags & POLARIS_RESERVE_FLAG_OVERWRITE != 0;
        let defer_fault = arg.flags & POLARIS_RESERVE_FLAG_DEFER_FAULT != 0;
        let phase = PolarisPhase::from_u32(arg.phase);
        let existing = match find(
            &self.blocks,
            |b: &PolarisBlock| -> (x: bool)
                ensures
                    x == own_overlapping(arg.session_id, req_start as int, req_end as int)(*b)
                { b.session_id == arg.session_id && b.has_tokens(req_start, req_end) },
            Ghost(own_overlapping(arg.session_id, req_start as int, req_end as int)),
        ) {
            Some(i) => Some(i),
            None => {
                let ids = &self.sessions[k].block_ids;
                find(
                    &self.blocks,
                    |b: &PolarisBlock| -> (x: bool)
                        ensures
                            x == listed_overlapping(ids@, req_start as int, req_end as int)(*b)
                        { contains_id(ids, b.block_id) && b.has_tokens(req_start, req_end) },
                    Ghost(listed_overlapping(ids@, req_start as int, req_end as int)),
                )
            },
        };
        assert(as_index(existing) == block_in_the_way(v, s, req_start as int, req_end as int));
        let block_id: u64 = self.next_block_id;
        let raises = match existing {
            None => !defer_fault,
            Some(i) => overwrite && (self.blocks[i].refcount > 1 || !(self.blocks[i].state
                == PolarisBlockState::Resident || defer_fault)),
        };
        if raises && self.pending_decisions.len() >= POLARIS_MAX_PENDING_DECISIONS {
            return Err(ENOMEM);
        }
        match existing {
            None => {
                self.next_block_id = block_id + 1;
                self.blocks.push(
                    PolarisBlock {
                        block_id,
                        session_id: arg.session_id,
                        token_start: arg.token_start,
                        token_count: arg.token_count,
                        home_gpu,
                        gpu_vaddr,
                        gpu_phys_handle: 0,
                        rm_control_fd: 0,
                        rm_h_client: 0,
                        rm_h_memory: 0,
                        rm_backing_length: 0,
                        rm_backing_offset: 0,
                        cpu_buf_addr: 0,
                        size_bytes,
                        refcount: 1,
                        state: PolarisBlockState::Unmapped,
                        flags: PolarisBlockFlags { shared: false },
                        phase,
                        last_touch_ns: 0,
                        map_time_ns: 0,
                        cow_src_handle: 0,
                        cow_src_block_id: 0,
                        map_src_handle: 0,
                        retry_count: 0,
                        pending_decision_id: 0,
                        pending_fault_id: 0,
                        pending_generation: 0,
                        fault_timeout_ms: POLARIS_DEFAULT_FAULT_TIMEOUT_MS,
                        waiter: 0,
                    },
                );
                self.sessions[k].block_ids.push(block_id);
                assert(self@.sessions =~= reserving(v, arg).1.sessions);
                let fault = if defer_fault {
                    None
                } else {
                    Some(
                        GpuFault {
                            gpu_id: home_gpu,
                            rm_client_token: 0,
                            va_space_token: 0,
                            fault_address: gpu_vaddr,
                            access_type: 0,
                        },
                    )
                };
                Ok((PolarisBlockReserveArg { block_id, gpu_vaddr, ..arg }, fault))
            },
            Some(i) => {
                if !overwrite {
                    return Err(EINVAL);
                }
                let mut eb = self.blocks[i];
                if eb.refcount > 1 {
                    // The session gets a copy of its own.
                    self.next_block_id = block_id + 1;
                    let old_block_id: u64 = eb.block_id;
                    let cow_src: u64 = eb.gpu_phys_handle;
                    let cow_src_block_id: u64 = if cow_src == 0 && eb.has_rm_backing() {
                        old_block_id
                    } else {
                        0
                    };
                    eb.drop_reference();
                    self.blocks[i] = eb;
                    self.blocks.push(
                        PolarisBlock {
                            block_id,
                            session_id: arg.session_id,
                            token_start: arg.token_start,
                            token_count: arg.token_count,
                            home_gpu,
                            gpu_vaddr,
                            gpu_phys_handle: 0,
                            rm_control_fd: 0,
                            rm_h_client: 0,
                            rm_h_memory: 0,
                            rm_backing_length: 0,
                            rm_backing_offset: 0,
                            cpu_buf_addr: 0,
                            size_bytes,
                            refcount: 1,
                            state: PolarisBlockState::CowPending,
                            flags: PolarisBlockFlags { shared: false },
                            phase,
                            last_touch_ns: 0,
                            map_time_ns: 0,
                            cow_src_handle: cow_src,
                            cow_src_block_id,
                            map_src_handle: 0,
                            retry_count: 0,
                            pending_decision_id: 0,
                            pending_fault_id: 0,
                            pending_generation: 0,
                            fault_timeout_ms: POLARIS_DEFAULT_FAULT_TIMEOUT_MS,
                            waiter: 0,
                        },
                    );
                    let at = find(
                        &self.sessions[k].block_ids,
                        |x: &u64| -> (r: bool)
                            ensures
                                r == (*x == old_block_id)
                            { *x == old_block_id },
                        Ghost(id_is(old_block_id)),
                    );
                    match at {
                        Some(q) => {
                            self.sessions[k].block_ids[q] = block_id;
                        },
                        None => {
                            self.sessions[k].block_ids.push(block_id);
                        },
                    }
                    assert(self.sessions@[k as int].block_ids@ =~= exchanged(
                        s.block_ids,
                        old_block_id,
                        block_id,
                    ));
                    assert(self@.sessions =~= reserving(v, arg).1.sessions);
                    return Ok(
                        (
                            PolarisBlockReserveArg { block_id, gpu_vaddr, ..arg },
                            Some(
                                GpuFault {
                                    gpu_id: home_gpu,
                                    rm_client_token: 0,
                                    va_space_token: 0,
                                    fault_address: gpu_vaddr,
                                    access_type: 1,
                                },
                            ),
                        ),
                    );
                }
                // The block is this session's alone: it is used anew.
                eb.token_start = arg.token_start;
                eb.token_count = arg.token_count;
                eb.size_bytes = size_bytes;
                eb.gpu_vaddr = gpu_vaddr;
                eb.clear_rm_backing();
                self.blocks[i] = eb;
                let fault = if eb.state == PolarisBlockState::Resident || defer_fault {
                    None
                } else {
                    Some(
                        GpuFault {
                            gpu_id: home_gpu,
                            rm_client_token: 0,
                            va_space_token: 0,
                            fault_address: gpu_vaddr,
                            access_type: 0,
                        },
                    )
                };
                Ok((PolarisBlockReserveArg { block_id: eb.block_id, gpu_vaddr, ..arg }, fault))
            },
        }
    }

    /// Give reserved tokens back.
    pub fn block_release(&mut self, arg: PolarisBlockReleaseArg) -> (r: Result<(), i32>)
        requires
            old(self)@.next_decision_id < u64::MAX,
        ensures
            (r, final(self)@) == releasing(old(self)@, arg),
    {
        let k: usize = match self.find_session(arg.session_id) {
            Some(k) => k,
            None => {
                return Err(ENOENT);
            },
        };
        assert(self.sessions@[k as int]@ == self@.sessions[k as int]);
        let home_gpu: u32 = self.sessions[k].home_gpu;
        let start: u64 = self.sessions[k].gpu_vas_base.saturating_add(
            saturating_mul(arg.token_start as u64, self.sessions[k].bytes_per_token),
        );
        let ids = &self.sessions[k].block_ids;
        let i: usize = match find(
            &self.blocks,
            |b: &PolarisBlock| -> (x: bool)
                ensures
                    x == listed_exactly(ids@, arg.token_start, arg.token_count)(*b)
                {
                    contains_id(ids, b.block_id) && b.token_start == arg.token_start
                        && b.token_count == arg.token_count
                },
            Ghost(listed_exactly(ids@, arg.token_start, arg.token_count)),
        ) {
            Some(i) => i,
            None => {
                return Err(ENOENT);
            },
        };
        let block = self.blocks[i];
        let block_id: u64 = block.block_id;
        let caller_owns_backing = arg.flags & POLARIS_RELEASE_FLAG_CALLER_OWNS_BACKING != 0;
        let end: u64 = start.saturating_add(block.size_bytes);
        if block.refcount > 1 {
            let mut b = block;
            b.drop_reference();
            self.blocks[i] = b;
            retain(
                &mut self.block_mappings,
                |m: &PolarisBlockMapping| -> (x: bool)
                    ensures
                        x == mapping_outside(block_id, home_gpu, start, end)(*m)
                    {
                        !(m.block_id == block_id && m.gpu_id == home_gpu && m.base < end
                            && m.base.saturating_add(m.length) > start)
                    },
                Ghost(mapping_outside(block_id, home_gpu, start, end)),
            );
            self.drop_listing(arg.session_id, block_id);
        } else {
            if block.state == PolarisBlockState::FreePending {
                return Err(EBUSY);
            }
            if block.needs_free_decision() && !caller_owns_backing && self.daemon_attached > 0 {
                match self.queue_free_decision(i) {
                    Ok(_) => {},
                    Err(e) => {
                        return Err(e);
                    },
                }
                self.forget_static_blocks_for_block(block_id);
                self.drop_mappings_of(block_id);
                self.drop_listing(arg.session_id, block_id);
            } else {
                self.account_direct_block_removal(block);
                self.forget_static_blocks_for_block(block_id);
                let _ = self.blocks.remove(i);
                self.drop_mappings_of(block_id);
                self.drop_listing(arg.session_id, block_id);
            }
        }
        Ok(())
    }

    /// Note that tokens of a session were used. `now` is the monotonic time in
    /// nanoseconds.
    pub fn block_touch(&mut self, arg: PolarisBlockTouchArg, now: u64)
        requires
            arg.token_start + arg.token_count <= u64::MAX,
        ensures
            final(self)@ == touching(old(self)@, arg, now),
    {
        let ghost v = self@;
        let start: u64 = arg.token_start;
        let end: u64 = arg.token_start + arg.token_count;
        let mut ids: Vec<u64> = Vec::new();
        let ghost mut listed: Seq<u64> = Seq::empty();
        if let Some(k) = self.find_session(arg.session_id) {
            proof {
                listed = self@.sessions[k as int].block_ids;
            }
            assert(self.sessions@[k as int]@ == self@.sessions[k as int]);
            let mut q: usize = 0;
            while q < self.sessions[k as usize].block_ids.len()
                invariant
                    k < self.sessions@.len(),
                    listed == self.sessions@[k as int].block_ids@,
                    0 <= q <= listed.len(),
                    ids@ == listed.take(q as int),
                decreases listed.len() - q,
            {
                ids.push(self.sessions[k].block_ids[q]);
                assert(ids@ =~= listed.take(q as int + 1));
                q += 1;
            }
            assert(listed.take(q as int) =~= listed);
        }
        assert(ids@ =~= listed);
        let mut n: usize = 0;
        while n < self.blocks.len()
            invariant
                0 <= n <= self@.blocks.len(),
                self@ == v,
                ids@ == ids_to_touch(
                    listed,
                    v.blocks,
                    arg.session_id,
                    start as int,
                    end as int,
                    n as int,
                ),
            decreases self@.blocks.len() - n,
        {
            let b = &self.blocks[n];
            if b.session_id == arg.session_id && b.has_tokens(start, end) {
                if !contains_id(&ids, b.block_id) {
                    ids.push(b.block_id);
                }
            }
            n += 1;
        }
        let ghost all = ids@;
        let mut j: usize = 0;
        assert(all.take(0) =~= Seq::empty());
        while j < ids.len()
            invariant
                0 <= j <= ids@.len(),
                all == ids@,
                self@ == (PolarisView {
                    blocks: touched_ids(v.blocks, all.take(j as int), start as int, end as int, now),
                    ..v
                }),
            decreases ids@.len() - j,
        {
            assert(all.take(j as int + 1).drop_last() =~= all.take(j as int));
            if let Some(i) = self.find_block(ids[j]) {
                if self.blocks[i].has_tokens(start, end) {
                    self.blocks[i].last_touch_ns = now;
                }
            }
            j += 1;
        }
        assert(all.take(j as int) =~= all);
    }

    /// The block that a session sees at a token.
    fn find_block_at(&self, session_id: u64, token_start: u32) -> (r: Option<usize>)
        ensures
            as_index(r) == block_at(self@, session_id, token_start),
            r matches Some(i) ==> i < self@.blocks.len(),
    {
        let direct = find(
            &self.blocks,
            |b: &PolarisBlock| -> (x: bool)
                ensures
                    x == own_at(session_id, token_start)(*b)
                { b.session_id == session_id && b.token_start == token_start },
            Ghost(own_at(session_id, token_start)),
        );
        if direct.is_some() {
            return direct;
        }
        let k: usize = match self.find_session(session_id) {
            Some(k) => k,
            None => {
                return None;
            },
        };
        let ghost ids = self@.sessions[k as int].block_ids;
        let ghost p = names_block_at(self@.blocks, token_start);
        assert(self.sessions@[k as int]@ == self@.sessions[k as int]);
        let mut j: usize = 0;
        while j < self.sessions[k as usize].block_ids.len()
            invariant
                k < self.sessions@.len(),
                first_index(self@.blocks, own_at(session_id, token_start)) is None,
                self@.find_session(session_id) == Some(k as int),
                ids == self.sessions@[k as int].block_ids@,
                ids == self@.sessions[k as int].block_ids,
                p == names_block_at(self@.blocks, token_start),
                0 <= j <= ids.len(),
                forall|q: int| 0 <= q < j ==> !p(#[trigger] ids[q]),
            decreases ids.len() - j,
        {
            let id: u64 = self.sessions[k].block_ids[j];
            let at = find(
                &self.blocks,
                |b: &PolarisBlock| -> (x: bool)
                    ensures
                        x == named_at(id, token_start)(*b)
                    { b.block_id == id && b.token_start == token_start },
                Ghost(named_at(id, token_start)),
            );
            if at.is_some() {
                proof {
                    assert(named_at(id, token_start)(self@.blocks[at->0 as int]));
                    assert(p(ids[j as int]));
                    lemma_first_index_is(ids, p, j as int);
                }
                return at;
            }
            j += 1;
        }
        None
    }

    /// Say what became of the block that a session sees at a token.
    pub fn block_get_state(&self, arg: PolarisBlockGetStateArg) -> (r: Result<
        PolarisBlockGetStateArg,
        i32,
    >)
        ensures
            r == state_told(self@, arg),
    {
        match self.find_block_at(arg.session_id, arg.token_start) {
            Some(i) => {
                let b = &self.blocks[i];
                Ok(
                    PolarisBlockGetStateArg {
                        block_id: b.block_id,
                        state: b.state.to_u32(),
                        refcount: b.refcount,
                        gpu_vaddr: b.gpu_vaddr,
                        ..arg
                    },
                )
            },
            None => Err(ENOENT),
        }
    }

    /// Ask for a block to be moved to host memory. The observed mappings of the
    /// block are to be taken away next.
    pub fn spill_block(&mut self, arg: PolarisSpillBlockArg) -> (r: Result<u64, i32>)
        requires
            old(self)@.next_decision_id < u64::MAX,
        ensures
            (r, final(self)@) == spilling(old(self)@, arg.block_id),
    {
        if arg.block_id == 0 {
            return Err(EINVAL);
        }
        let i: usize = match self.find_block(arg.block_id) {
            Some(i) => i,
            None => {
                return Err(ENOENT);
            },
        };
        match self.blocks[i].state {
            PolarisBlockState::CpuOffloaded => Ok(0),
            PolarisBlockState::Resident => self.queue_offload_decision(i),
            PolarisBlockState::Unmapped | PolarisBlockState::Evicted => Err(ENOENT),
            _ => Err(EBUSY),
        }
    }
}

} // verus!
