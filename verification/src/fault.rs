//! A fault on a GPU address: what to ask of the executor, and what the answer
//! means. The caller waits between the two.

use crate::abi::{
    PolarisBlockState, PolarisDecision, PolarisDecisionOp, POLARIS_DEFAULT_FAULT_TIMEOUT_MS,
};
use crate::errno::{ENODEV, ENOMEM, ETIMEDOUT};
use crate::num::{sat_add, sat_sub};
use crate::policy::{scores_fit, select_victim, victim, VictimRequest, SHARING_WEIGHT};
use crate::seqs::{any, as_index, find, find_last, first_index, is_first, last_index};
use crate::state::{PolarisInner, PolarisView};
use crate::types::{
    PolarisBlock, PolarisBlockFlags, PolarisFault, PolarisVaSpace, SessionView,
    POLARIS_MAX_PENDING_DECISIONS,
};
use vstd::prelude::*;

verus! {

/// What becomes of a fault at first.
#[derive(Clone, Copy, PartialEq, Eq, Structural, Debug)]
pub enum FaultStep {
    /// The address is not managed here.
    NotMine,
    /// The address is managed here but no block covers it.
    Error,
    /// The executor was asked; wait for the block.
    Wait { block_id: u64, fault_id: u64, timeout_ms: u32 },
}

/// A fault as it is reported.
#[derive(Clone, Copy, PartialEq, Eq, Structural, Debug)]
pub struct GpuFault {
    pub gpu_id: u32,
    pub rm_client_token: u64,
    pub va_space_token: u64,
    pub fault_address: u64,
    pub access_type: u32,
}

// ─── Budget ─────────────────────────────────────────────────────────────────

/// What comes of asking for `needed` bytes on a GPU: nothing where they fit
/// its budget; else one victim is asked to go that is large enough to make up
/// for what is missing.
pub open spec fn schedule_victim(
    v: PolarisView,
    requesting_session_id: u64,
    target_gpu: u32,
    needed: u64,
    protected_phys_handle: u64,
    protected_block_id: u64,
    now: u64,
) -> (Result<(), i32>, PolarisView) {
    if needed == 0 {
        (Ok(()), v)
    } else {
        match v.find_gpu(target_gpu) {
            None => (Err(ENODEV), v),
            Some(g) => {
                let gpu = v.gpus[g];
                let wanted = sat_add(gpu.used_bytes, needed);
                if gpu.budget_bytes == 0 || wanted <= gpu.budget_bytes {
                    (Ok(()), v)
                } else {
                    let q = VictimRequest {
                        requesting_session_id,
                        target_gpu,
                        protected_phys_handle,
                        protected_block_id,
                    };
                    match victim(v, q, now) {
                        None => (Err(ENOMEM), v),
                        Some(i) => {
                            let size = v.blocks[i].size_bytes;
                            if size < sat_sub(wanted, gpu.budget_bytes) || sat_add(
                                gpu.cpu_pool_used_bytes,
                                size,
                            ) > gpu.cpu_pool_total_bytes || v.pending_decisions.len() + 2
                                > POLARIS_MAX_PENDING_DECISIONS {
                                (Err(ENOMEM), v)
                            } else {
                                let (r, w) = v.queue_offload(i);
                                (
                                    match r {
                                        Ok(_) => Ok(()),
                                        Err(e) => Err(e),
                                    },
                                    w,
                                )
                            }
                        },
                    }
                }
            },
        }
    }
}

// ─── The block at fault ─────────────────────────────────────────────────────

/// Address spaces that a fault can come from.
pub open spec fn va_space_serves(f: GpuFault) -> spec_fn(PolarisVaSpace) -> bool {
    |s: PolarisVaSpace|
        s.gpu_id == f.gpu_id && s.va_space_token == f.va_space_token && (s.rm_client_token == 0
            || s.rm_client_token == f.rm_client_token)
}

/// The address is one that is managed here: in the window of the address space
/// that is named, or, where none is, in the range of the GPU.
pub open spec fn managed(v: PolarisView, f: GpuFault) -> bool {
    if f.va_space_token != 0 {
        match first_index(v.va_spaces, va_space_serves(f)) {
            Some(i) => {
                let s = v.va_spaces[i];
                s.managed_base <= f.fault_address < sat_add(s.managed_base, s.managed_length)
            },
            None => false,
        }
    } else {
        match v.find_gpu(f.gpu_id) {
            Some(g) => {
                let gpu = v.gpus[g];
                gpu.va_range_registered && gpu.va_range_base <= f.fault_address < sat_add(
                    gpu.va_range_base,
                    gpu.va_range_length,
                )
            },
            None => false,
        }
    }
}

/// Blocks of a GPU that cover an address.
pub open spec fn covers_fault(gpu_id: u32, addr: u64) -> spec_fn(PolarisBlock) -> bool {
    |b: PolarisBlock| b.home_gpu == gpu_id && b.covers(addr)
}

/// Sessions whose addresses hold one.
pub open spec fn session_spans(addr: u64) -> spec_fn(SessionView) -> bool {
    |s: SessionView| s.gpu_vas_base <= addr < sat_add(s.gpu_vas_base, s.gpu_vas_size)
}

/// A block by its id, reserved by another session.
pub open spec fn foreign_block(block_id: u64, session_id: u64) -> spec_fn(PolarisBlock) -> bool {
    |b: PolarisBlock| b.block_id == block_id && b.session_id != session_id
}

/// Ids of blocks that another session reserved.
pub open spec fn names_foreign_block(blocks: Seq<PolarisBlock>, session_id: u64) -> spec_fn(
    u64,
) -> bool {
    |id: u64| any(blocks, foreign_block(id, session_id))
}

/// The first block in a session's list that it inherited.
pub open spec fn first_inherited(v: PolarisView, s: SessionView) -> Option<int> {
    match first_index(s.block_ids, names_foreign_block(v.blocks, s.session_id)) {
        Some(k) => first_index(v.blocks, foreign_block(s.block_ids[k], s.session_id)),
        None => None,
    }
}

/// What a fault is about.
pub enum FaultTarget {
    /// No block.
    Nothing,
    /// Block `i`.
    Block(int),
    /// Block `i`, which session `session_id` inherited and sees elsewhere.
    Inherited { session_id: u64, i: int },
}

/// What a fault is about: the newest block that covers the address; else the
/// first block that the session at the address inherited, which is mapped
/// there as well where it is resident.
pub open spec fn fault_target(v: PolarisView, gpu_id: u32, addr: u64) -> FaultTarget {
    match last_index(v.blocks, covers_fault(gpu_id, addr)) {
        Some(i) => FaultTarget::Block(i),
        None => match first_index(v.sessions, session_spans(addr)) {
            None => FaultTarget::Nothing,
            Some(k) => {
                // The list searched is that of the first session with this id.
                let sid = v.sessions[k].session_id;
                match v.find_session(sid) {
                    None => FaultTarget::Nothing,
                    Some(s) => match first_inherited(v, v.sessions[s]) {
                        None => FaultTarget::Nothing,
                        Some(i) => if v.blocks[i].state is Resident && v.blocks[i].gpu_phys_handle
                            != 0 {
                            FaultTarget::Inherited { session_id: sid, i }
                        } else {
                            FaultTarget::Block(i)
                        },
                    },
                }
            },
        },
    }
}

// ─── Asking the executor ────────────────────────────────────────────────────

/// What a fault on a block asks for.
pub open spec fn fault_op(state: PolarisBlockState) -> PolarisDecisionOp {
    match state {
        PolarisBlockState::CpuOffloaded => PolarisDecisionOp::Reload,
        PolarisBlockState::CowPending => PolarisDecisionOp::CowBreak,
        PolarisBlockState::Resident => PolarisDecisionOp::MapExisting,
        _ => PolarisDecisionOp::Alloc,
    }
}

/// Where a block stands while the executor works on a fault.
pub open spec fn faulting_state(op: PolarisDecisionOp) -> PolarisBlockState {
    match op {
        PolarisDecisionOp::Reload => PolarisBlockState::ReloadPending,
        PolarisDecisionOp::CowBreak => PolarisBlockState::CowPending,
        PolarisDecisionOp::MapExisting => PolarisBlockState::Resident,
        _ => PolarisBlockState::AllocPending,
    }
}

/// The record of a fault.
pub open spec fn fault_record(v: PolarisView, f: GpuFault, block_id: u64, now: u64) -> PolarisFault {
    PolarisFault {
        fault_id: v.next_fault_id,
        generation: v.fault_generation,
        gpu_id: f.gpu_id,
        fault_address: f.fault_address,
        block_id,
        access_type: f.access_type,
        state: 0,
        enqueue_ns: now,
        deadline_ns: 0,
        resolved_ns: 0,
    }
}

/// A block for a session that maps memory which another block holds.
pub open spec fn alias_block(v: PolarisView, f: GpuFault, session_id: u64, src: PolarisBlock) -> PolarisBlock {
    PolarisBlock {
        block_id: v.next_block_id,
        session_id,
        token_start: src.token_start,
        token_count: src.token_count,
        home_gpu: f.gpu_id,
        gpu_vaddr: f.fault_address,
        gpu_phys_handle: 0,
        rm_control_fd: 0,
        rm_h_client: 0,
        rm_h_memory: 0,
        rm_backing_length: 0,
        rm_backing_offset: 0,
        cpu_buf_addr: 0,
        size_bytes: src.size_bytes,
        refcount: 1,
        state: PolarisBlockState::AllocPending,
        flags: PolarisBlockFlags { shared: false },
        phase: src.phase,
        last_touch_ns: 0,
        map_time_ns: 0,
        cow_src_handle: 0,
        cow_src_block_id: 0,
        map_src_handle: src.gpu_phys_handle,
        retry_count: 0,
        pending_decision_id: v.next_decision_id,
        pending_fault_id: v.next_fault_id,
        pending_generation: v.fault_generation,
        fault_timeout_ms: POLARIS_DEFAULT_FAULT_TIMEOUT_MS,
        waiter: v.next_fault_id,
    }
}

/// The state after the executor is asked to map an inherited block where a
/// session sees it.
pub open spec fn aliasing(v: PolarisView, f: GpuFault, session_id: u64, i: int, now: u64) -> PolarisView {
    let src = v.blocks[i];
    PolarisView {
        next_block_id: (v.next_block_id + 1) as u64,
        next_fault_id: (v.next_fault_id + 1) as u64,
        next_decision_id: (v.next_decision_id + 1) as u64,
        blocks: v.blocks.push(alias_block(v, f, session_id, src)),
        pending_faults: v.pending_faults.push(fault_record(v, f, v.next_block_id, now)),
        pending_decisions: v.pending_decisions.push(
            PolarisDecision {
                decision_id: v.next_decision_id,
                fault_id: v.next_fault_id,
                generation: v.fault_generation,
                op: PolarisDecisionOp::MapExisting.code(),
                gpu_id: f.gpu_id,
                block_id: v.next_block_id,
                session_id,
                src_handle: src.gpu_phys_handle,
                dst_handle: 0,
                src_vaddr: src.gpu_vaddr,
                dst_vaddr: f.fault_address,
                size_bytes: src.size_bytes,
                cpu_addr: 0,
                access_flags: f.access_type,
                timeout_ms: POLARIS_DEFAULT_FAULT_TIMEOUT_MS,
                _reserved: [0u64, 0u64, 0u64, 0u64],
            },
        ),
        ..v
    }
}

/// The state after the executor is asked to make block `i` resident. Room was
/// made before: `v` is the state after that, `fault_id` the number that the
/// fault was given.
pub open spec fn faulting(v: PolarisView, f: GpuFault, i: int, fault_id: u64, now: u64) -> PolarisView {
    let b = v.blocks[i];
    let op = fault_op(b.state);
    PolarisView {
        next_decision_id: (v.next_decision_id + 1) as u64,
        blocks: v.blocks.update(
            i,
            PolarisBlock {
                pending_fault_id: fault_id,
                pending_generation: v.fault_generation,
                pending_decision_id: v.next_decision_id,
                state: faulting_state(op),
                map_src_handle: 0,
                fault_timeout_ms: POLARIS_DEFAULT_FAULT_TIMEOUT_MS,
                waiter: fault_id,
                ..b
            },
        ),
        pending_faults: v.pending_faults.push(
            PolarisFault { fault_id, ..fault_record(v, f, b.block_id, now) },
        ),
        pending_decisions: v.pending_decisions.push(
            PolarisDecision {
                decision_id: v.next_decision_id,
                fault_id,
                generation: v.fault_generation,
                op: op.code(),
                gpu_id: f.gpu_id,
                block_id: b.block_id,
                session_id: b.session_id,
                src_handle: if op is CowBreak {
                    b.cow_src_handle
                } else {
                    b.gpu_phys_handle
                },
                dst_handle: 0,
                src_vaddr: f.fault_address,
                dst_vaddr: b.gpu_vaddr,
                size_bytes: b.size_bytes,
                cpu_addr: b.cpu_buf_addr,
                access_flags: f.access_type,
                timeout_ms: POLARIS_DEFAULT_FAULT_TIMEOUT_MS,
                _reserved: if op is CowBreak {
                    b.cow_source()
                } else {
                    [0u64, 0u64, 0u64, 0u64]
                },
            },
        ),
        ..v
    }
}

/// What comes of a fault on block `i`: room is made where memory has to be
/// found, then the executor is asked.
pub open spec fn fault_on_block(v: PolarisView, f: GpuFault, i: int, now: u64) -> (Result<
    FaultStep,
    i32,
>, PolarisView) {
    let b = v.blocks[i];
    let op = fault_op(b.state);
    let numbered = PolarisView { next_fault_id: (v.next_fault_id + 1) as u64, ..v };
    let (room, w) = if op is MapExisting {
        (Ok(()), numbered)
    } else {
        schedule_victim(
            numbered,
            b.session_id,
            f.gpu_id,
            b.size_bytes,
            if op is CowBreak {
                b.cow_src_handle
            } else {
                0
            },
            if op is CowBreak {
                b.cow_src_block_id
            } else {
                0
            },
            now,
        )
    };
    match room {
        Err(e) => (Err(e), w),
        Ok(_) => (
            Ok(
                FaultStep::Wait {
                    block_id: b.block_id,
                    fault_id: v.next_fault_id,
                    timeout_ms: POLARIS_DEFAULT_FAULT_TIMEOUT_MS,
                },
            ),
            faulting(w, f, i, v.next_fault_id, now),
        ),
    }
}

/// What comes of a fault at first. One that would add to a full queue is refused.
pub open spec fn fault_begins(v: PolarisView, f: GpuFault, now: u64) -> (Result<
    FaultStep,
    i32,
>, PolarisView) {
    if !managed(v, f) {
        (Ok(FaultStep::NotMine), v)
    } else {
        match fault_target(v, f.gpu_id, f.fault_address) {
            FaultTarget::Nothing => (Ok(FaultStep::Error), v),
            FaultTarget::Inherited { session_id, i } => if v.queue_is_full() {
                (Err(ENOMEM), v)
            } else {
                (
                    Ok(
                        FaultStep::Wait {
                            block_id: v.next_block_id,
                            fault_id: v.next_fault_id,
                            timeout_ms: POLARIS_DEFAULT_FAULT_TIMEOUT_MS,
                        },
                    ),
                    aliasing(v, f, session_id, i, now),
                )
            },
            FaultTarget::Block(i) => if v.queue_is_full() {
                (Err(ENOMEM), v)
            } else {
                fault_on_block(v, f, i, now)
            },
        }
    }
}

/// What the end of the wait means: a block that is not resident when the time
/// is up is lost.
pub open spec fn fault_ends(v: PolarisView, block_id: u64, wait_ret: i64) -> (Result<
    (),
    i32,
>, PolarisView) {
    match v.find_block(block_id) {
        None => (Ok(()), v),
        Some(i) => {
            let b = v.blocks[i];
            if wait_ret == 0 && !(b.state is Resident) {
                (
                    Err(ETIMEDOUT),
                    v.with_block(
                        i,
                        PolarisBlock {
                            waiter: 0,
                            state: PolarisBlockState::Evicted,
                            ..b.without_rm_backing()
                        },
                    ),
                )
            } else {
                (Ok(()), v.with_block(i, PolarisBlock { waiter: 0, ..b }))
            }
        },
    }
}

/// The counters have room for the records of a fault, and the scores of all
/// blocks fit the machine.
pub open spec fn fault_fits(v: PolarisView) -> bool {
    &&& v.next_fault_id < u64::MAX
    &&& v.next_block_id < u64::MAX
    &&& v.next_decision_id < u64::MAX - 1
    &&& forall|i: int|
        0 <= i < v.blocks.len() ==> SHARING_WEIGHT * (#[trigger] v.blocks[i]).refcount + 1_500_500
            <= i64::MAX
    &&& forall|i: int|
        0 <= i < v.sessions.len() ==> (#[trigger] v.sessions[i]).active_read_start_token <= i64::MAX
            - 2_000_000
}

/// Bounded scores are bounded for every session.
proof fn lemma_scores_fit(v: PolarisView, w: PolarisView, session_id: u64)
    requires
        fault_fits(v),
        w.blocks == v.blocks,
        w.sessions == v.sessions,
    ensures
        scores_fit(w, session_id),
{
    crate::seqs::lemma_first_index(w.sessions, crate::state::session_is(session_id));
}

// ─── Laws ───────────────────────────────────────────────────────────────────

/// Room is made without going over the budget: either the bytes fit, or the
/// last decision queued moves away a block at least as large as what is
/// missing.
pub proof fn law_budget_is_kept(
    v: PolarisView,
    session_id: u64,
    gpu_id: u32,
    needed: u64,
    handle: u64,
    source: u64,
    now: u64,
    g: int,
)
    requires
        needed > 0,
        v.find_gpu(gpu_id) == Some(g),
        schedule_victim(v, session_id, gpu_id, needed, handle, source, now).0 is Ok,
        v.gpus[g].budget_bytes != 0,
        v.gpus[g].used_bytes + needed <= u64::MAX,
    ensures
        ({
            let w = schedule_victim(v, session_id, gpu_id, needed, handle, source, now).1;
            let gpu = v.gpus[g];
            ||| gpu.used_bytes + needed <= gpu.budget_bytes && w == v
            ||| {
                &&& w.pending_decisions.len() == v.pending_decisions.len() + 1
                &&& w.pending_decisions.last().op == PolarisDecisionOp::Offload.code()
                &&& w.pending_decisions.last().gpu_id == gpu_id
                &&& gpu.used_bytes + needed - w.pending_decisions.last().size_bytes
                    <= gpu.budget_bytes
            }
        }),
{
    crate::policy::law_victim_is_movable(
        v,
        (VictimRequest {
            requesting_session_id: session_id,
            target_gpu: gpu_id,
            protected_phys_handle: handle,
            protected_block_id: source,
        }),
        now,
    );
}

/// Room is refused without a trace in the tables but for the decision numbers.
pub proof fn law_refused_room_changes_no_table(
    v: PolarisView,
    session_id: u64,
    gpu_id: u32,
    needed: u64,
    handle: u64,
    source: u64,
    now: u64,
)
    requires
        schedule_victim(v, session_id, gpu_id, needed, handle, source, now).0 is Err,
    ensures
        ({
            let w = schedule_victim(v, session_id, gpu_id, needed, handle, source, now).1;
            w == PolarisView { next_decision_id: w.next_decision_id, ..v }
        }),
{
}

/// Every fault that is waited for has a decision in the queue that names its
/// block, its number and its generation, and the block points back at it.
pub proof fn law_wait_has_a_decision(v: PolarisView, f: GpuFault, now: u64)
    requires
        fault_begins(v, f, now).0 is Ok,
        fault_begins(v, f, now).0->Ok_0 is Wait,
    ensures
        ({
            let (r, w) = fault_begins(v, f, now);
            let d = w.pending_decisions.last();
            let step = r->Ok_0;
            &&& w.pending_decisions.len() > v.pending_decisions.len()
            &&& d.block_id == step->block_id
            &&& d.fault_id == step->fault_id
            &&& d.generation == v.fault_generation
            &&& exists|i: int|
                {
                    &&& 0 <= i < w.blocks.len()
                    &&& (#[trigger] w.blocks[i]).block_id == step->block_id
                    &&& w.blocks[i].pending_decision_id == d.decision_id
                    &&& w.blocks[i].waiter == step->fault_id
                    &&& w.blocks[i].pending_generation == d.generation
                }
        }),
{
    let (r, w) = fault_begins(v, f, now);
    match fault_target(v, f.gpu_id, f.fault_address) {
        FaultTarget::Inherited { session_id, i } => {
            assert(w.blocks[v.blocks.len() as int].block_id == v.next_block_id);
        },
        FaultTarget::Block(i) => {
            lemma_fault_target(v, f.gpu_id, f.fault_address);
            assert(w.blocks[i].block_id == v.blocks[i].block_id);
        },
        FaultTarget::Nothing => {},
    }
}

/// A fault never makes the queue longer than it may be, and where the queue is
/// full it changes nothing.
pub proof fn law_fault_keeps_queue_limit(v: PolarisView, f: GpuFault, now: u64)
    ensures
        v.pending_decisions.len() <= POLARIS_MAX_PENDING_DECISIONS ==> fault_begins(
            v,
            f,
            now,
        ).1.pending_decisions.len() <= POLARIS_MAX_PENDING_DECISIONS,
        v.queue_is_full() ==> fault_begins(v, f, now).1 == v && !(fault_begins(
            v,
            f,
            now,
        ).0 matches Ok(step) && step is Wait),
{
}

/// The block that a fault is about is in the table.
pub proof fn lemma_fault_target(v: PolarisView, gpu_id: u32, addr: u64)
    ensures
        fault_target(v, gpu_id, addr) matches FaultTarget::Block(i) ==> 0 <= i < v.blocks.len(),
        fault_target(v, gpu_id, addr) matches FaultTarget::Inherited { session_id, i } ==> 0 <= i
            < v.blocks.len(),
{
    if let Some(k) = first_index(v.sessions, session_spans(addr)) {
        let sid = v.sessions[k].session_id;
        if let Some(s) = v.find_session(sid) {
            let list = v.sessions[s].block_ids;
            crate::seqs::lemma_first_index(list, names_foreign_block(v.blocks, v.sessions[s].session_id));
            if let Some(j) = first_index(
                list,
                names_foreign_block(v.blocks, v.sessions[s].session_id),
            ) {
                crate::seqs::lemma_first_index(
                    v.blocks,
                    foreign_block(list[j], v.sessions[s].session_id),
                );
            }
        }
    }
}

// ─── Handling ───────────────────────────────────────────────────────────────

impl PolarisInner {
    /// Make room for `needed` bytes on a GPU: nothing where they fit its budget;
    /// else one victim that the policy chooses is asked to go, if it alone is
    /// large enough.
    pub fn schedule_budget_victim(
        &mut self,
        requesting_session_id: u64,
        target_gpu: u32,
        needed_bytes: u64,
        protected_phys_handle: u64,
        protected_block_id: u64,
        now: u64,
    ) -> (r: Result<(), i32>)
        requires
            old(self).next_decision_id < u64::MAX,
            scores_fit(old(self)@, requesting_session_id),
        ensures
            (r, final(self)@) == schedule_victim(
                old(self)@,
                requesting_session_id,
                target_gpu,
                needed_bytes,
                protected_phys_handle,
                protected_block_id,
                now,
            ),
    {
        if needed_bytes == 0 {
            return Ok(());
        }
        let gpu = match self.find_gpu(target_gpu) {
            Some(g) => self.gpus[g],
            None => {
                return Err(ENODEV);
            },
        };
        let wanted: u64 = gpu.used_bytes.saturating_add(needed_bytes);
        if gpu.budget_bytes == 0 || wanted <= gpu.budget_bytes {
            return Ok(());
        }
        let deficit: u64 = wanted.saturating_sub(gpu.budget_bytes);
        let (victim_idx, victim_size) = match select_victim(
            self,
            requesting_session_id,
            target_gpu,
            protected_phys_handle,
            protected_block_id,
            now,
        ) {
            Some((i, _, size, _)) => (i, size),
            None => {
                return Err(ENOMEM);
            },
        };
        // One victim has to be enough.
        if victim_size < deficit {
            return Err(ENOMEM);
        }
        if gpu.cpu_pool_used_bytes.saturating_add(victim_size) > gpu.cpu_pool_total_bytes {
            return Err(ENOMEM);
        }
        if self.pending_decisions.len().saturating_add(2) > POLARIS_MAX_PENDING_DECISIONS {
            return Err(ENOMEM);
        }
        match self.queue_offload_decision(victim_idx) {
            Ok(_) => Ok(()),
            Err(e) => Err(e),
        }
    }

    /// Whether the address is one that is managed here.
    fn is_managed(&self, f: GpuFault) -> (r: bool)
        ensures
            r == managed(self@, f),
    {
        if f.va_space_token != 0 {
            match find(
                &self.va_spaces,
                |s: &PolarisVaSpace| -> (x: bool)
                    ensures
                        x == va_space_serves(f)(*s)
                    {
                        s.gpu_id == f.gpu_id && s.va_space_token == f.va_space_token && (
                        s.rm_client_token == 0 || s.rm_client_token == f.rm_client_token)
                    },
                Ghost(va_space_serves(f)),
            ) {
                Some(i) => {
                    let s = &self.va_spaces[i];
                    f.fault_address >= s.managed_base && f.fault_address
                        < s.managed_base.saturating_add(s.managed_length)
                },
                None => false,
            }
        } else {
            match self.find_gpu(f.gpu_id) {
                Some(g) => {
                    let gpu = &self.gpus[g];
                    gpu.va_range_registered && f.fault_address >= gpu.va_range_base
                        && f.fault_address < gpu.va_range_base.saturating_add(gpu.va_range_length)
                },
                None => false,
            }
        }
    }

    /// The first session whose addresses hold one.
    fn find_session_at(&self, addr: u64) -> (r: Option<usize>)
        ensures
            as_index(r) == first_index(self@.sessions, session_spans(addr)),
            r matches Some(i) ==> is_first(self@.sessions, session_spans(addr), i as int),
    {
        let mut i: usize = 0;
        while i < self.sessions.len()
            invariant
                0 <= i <= self.sessions@.len(),
                forall|k: int| 0 <= k < i ==> !session_spans(addr)(#[trigger] self@.sessions[k]),
            decreases self.sessions@.len() - i,
        {
            let s = &self.sessions[i];
            assert(s@ == self@.sessions[i as int]);
            if addr >= s.gpu_vas_base && addr < s.gpu_vas_base.saturating_add(s.gpu_vas_size) {
                proof {
                    crate::seqs::lemma_first_index_is(self@.sessions, session_spans(addr), i as int);
                }
                return Some(i);
            }
            i += 1;
        }
        None
    }

    /// The first block in a session's list that it inherited.
    fn find_first_inherited(&self, s: usize) -> (r: Option<usize>)
        requires
            s < self.sessions@.len(),
        ensures
            as_index(r) == first_inherited(self@, self@.sessions[s as int]),
            r matches Some(i) ==> i < self@.blocks.len(),
    {
        let session_id: u64 = self.sessions[s].session_id;
        let ghost list = self@.sessions[s as int].block_ids;
        let ghost p = names_foreign_block(self@.blocks, session_id);
        let mut k: usize = 0;
        while k < self.sessions[s as usize].block_ids.len()
            invariant
                s < self.sessions@.len(),
                session_id == self.sessions@[s as int].session_id,
                list == self.sessions@[s as int].block_ids@,
                list == self@.sessions[s as int].block_ids,
                p == names_foreign_block(self@.blocks, session_id),
                0 <= k <= list.len(),
                forall|j: int| 0 <= j < k ==> !p(#[trigger] list[j]),
            decreases list.len() - k,
        {
            let id: u64 = self.sessions[s].block_ids[k];
            let at = find(
                &self.blocks,
                |b: &PolarisBlock| -> (x: bool)
                    ensures
                        x == foreign_block(id, session_id)(*b)
                    { b.block_id == id && b.session_id != session_id },
                Ghost(foreign_block(id, session_id)),
            );
            if at.is_some() {
                proof {
                    assert(foreign_block(id, session_id)(self@.blocks[at->0 as int]));
                    assert(p(list[k as int]));
                    crate::seqs::lemma_first_index_is(list, p, k as int);
                }
                return at;
            }
            k += 1;
        }
        None
    }

    /// Take a fault up. On `Wait`, wait at most `timeout_ms` until the waiter
    /// `fault_id` is woken, then call `finish_gpu_fault`. `now` is the monotonic
    /// time in nanoseconds.
    pub fn resolve_gpu_fault(&mut self, f: GpuFault, now: u64) -> (r: Result<FaultStep, i32>)
        requires
            fault_fits(old(self)@),
        ensures
            (r, final(self)@) == fault_begins(old(self)@, f, now),
    {
        proof {
            lemma_fault_target(self@, f.gpu_id, f.fault_address);
        }
        if !self.is_managed(f) {
            return Ok(FaultStep::NotMine);
        }
        // The newest block comes first: a copy-on-write break creates a block at
        // the address of the one it replaces.
        let covering = find_last(
            &self.blocks,
            |b: &PolarisBlock| -> (x: bool)
                ensures
                    x == covers_fault(f.gpu_id, f.fault_address)(*b)
                { b.home_gpu == f.gpu_id && b.covers_address(f.fault_address) },
            Ghost(covers_fault(f.gpu_id, f.fault_address)),
        );
        let block_idx: usize = match covering {
            Some(i) => i,
            None => {
                let session_id: u64 = match self.find_session_at(f.fault_address) {
                    Some(k) => {
                        assert(self.sessions@[k as int]@ == self@.sessions[k as int]);
                        self.sessions[k].session_id
                    },
                    None => {
                        return Ok(FaultStep::Error);
                    },
                };
                let s: usize = match self.find_session(session_id) {
                    Some(s) => s,
                    None => {
                        return Ok(FaultStep::Error);
                    },
                };
                let i: usize = match self.find_first_inherited(s) {
                    Some(i) => i,
                    None => {
                        return Ok(FaultStep::Error);
                    },
                };
                let src = self.blocks[i];
                if src.state == PolarisBlockState::Resident && src.gpu_phys_handle != 0 {
                    if self.pending_decisions.len() >= POLARIS_MAX_PENDING_DECISIONS {
                        return Err(ENOMEM);
                    }
                    return Ok(self.map_inherited_block(f, session_id, i, now));
                }
                i
            },
        };
        if self.pending_decisions.len() >= POLARIS_MAX_PENDING_DECISIONS {
            return Err(ENOMEM);
        }
        let fault_id: u64 = self.next_fault_id;
        self.next_fault_id = fault_id + 1;
        let block = self.blocks[block_idx];
        let op = match block.state {
            PolarisBlockState::CpuOffloaded => PolarisDecisionOp::Reload,
            PolarisBlockState::CowPending => PolarisDecisionOp::CowBreak,
            PolarisBlockState::Resident => PolarisDecisionOp::MapExisting,
            _ => PolarisDecisionOp::Alloc,
        };
        if op != PolarisDecisionOp::MapExisting {
            let (protected_phys_handle, protected_block_id) = if op == PolarisDecisionOp::CowBreak {
                (block.cow_src_handle, block.cow_src_block_id)
            } else {
                (0, 0)
            };
            proof {
                lemma_scores_fit(old(self)@, self@, block.session_id);
            }
            match self.schedule_budget_victim(
                block.session_id,
                f.gpu_id,
                block.size_bytes,
                protected_phys_handle,
                protected_block_id,
                now,
            ) {
                Ok(_) => {},
                Err(e) => {
                    return Err(e);
                },
            }
            proof {
                lemma_room_keeps_block(
                    old(self)@,
                    f,
                    block_idx as int,
                    protected_phys_handle,
                    protected_block_id,
                    now,
                );
            }
        }
        assert(self@.blocks[block_idx as int] == block);
        let decision_id: u64 = self.next_decision_id;
        self.next_decision_id = decision_id + 1;
        let generation: u64 = self.fault_generation;
        let state = match op {
            PolarisDecisionOp::Reload => PolarisBlockState::ReloadPending,
            PolarisDecisionOp::CowBreak => PolarisBlockState::CowPending,
            PolarisDecisionOp::MapExisting => PolarisBlockState::Resident,
            _ => PolarisBlockState::AllocPending,
        };
        let src_handle: u64 = if op == PolarisDecisionOp::CowBreak {
            block.cow_src_handle
        } else {
            block.gpu_phys_handle
        };
        let _reserved = if op == PolarisDecisionOp::CowBreak {
            block.cow_source_fields()
        } else {
            [0u64, 0u64, 0u64, 0u64]
        };
        self.blocks[block_idx] = PolarisBlock {
            pending_fault_id: fault_id,
            pending_generation: generation,
            pending_decision_id: decision_id,
            state,
            map_src_handle: 0,
            fault_timeout_ms: POLARIS_DEFAULT_FAULT_TIMEOUT_MS,
            waiter: fault_id,
            ..block
        };
        self.pending_faults.push(
            PolarisFault {
                fault_id,
                generation,
                gpu_id: f.gpu_id,
                fault_address: f.fault_address,
                block_id: block.block_id,
                access_type: f.access_type,
                state: 0,
                enqueue_ns: now,
                deadline_ns: 0,
                resolved_ns: 0,
            },
        );
        self.pending_decisions.push(
            PolarisDecision {
                decision_id,
                fault_id,
                generation,
                op: op.to_u32(),
                gpu_id: f.gpu_id,
                block_id: block.block_id,
                session_id: block.session_id,
                src_handle,
                dst_handle: 0,
                src_vaddr: f.fault_address,
                dst_vaddr: block.gpu_vaddr,
                size_bytes: block.size_bytes,
                cpu_addr: block.cpu_buf_addr,
                access_flags: f.access_type,
                timeout_ms: POLARIS_DEFAULT_FAULT_TIMEOUT_MS,
                _reserved,
            },
        );
        Ok(
            FaultStep::Wait {
                block_id: block.block_id,
                fault_id,
                timeout_ms: POLARIS_DEFAULT_FAULT_TIMEOUT_MS,
            },
        )
    }

    /// Ask the executor to map inherited block `i` where a session sees it.
    fn map_inherited_block(&mut self, f: GpuFault, session_id: u64, i: usize, now: u64) -> (r:
        FaultStep)
        requires
            fault_fits(old(self)@),
            i < old(self)@.blocks.len(),
        ensures
            final(self)@ == aliasing(old(self)@, f, session_id, i as int, now),
            r == (FaultStep::Wait {
                block_id: old(self)@.next_block_id,
                fault_id: old(self)@.next_fault_id,
                timeout_ms: POLARIS_DEFAULT_FAULT_TIMEOUT_MS,
            }),
    {
        let src = self.blocks[i];
        let block_id: u64 = self.next_block_id;
        self.next_block_id = block_id + 1;
        let fault_id: u64 = self.next_fault_id;
        self.next_fault_id = fault_id + 1;
        let decision_id: u64 = self.next_decision_id;
        self.next_decision_id = decision_id + 1;
        let generation: u64 = self.fault_generation;
        self.blocks.push(
            PolarisBlock {
                block_id,
                session_id,
                token_start: src.token_start,
                token_count: src.token_count,
                home_gpu: f.gpu_id,
                gpu_vaddr: f.fault_address,
                gpu_phys_handle: 0,
                rm_control_fd: 0,
                rm_h_client: 0,
                rm_h_memory: 0,
                rm_backing_length: 0,
                rm_backing_offset: 0,
                cpu_buf_addr: 0,
                size_bytes: src.size_bytes,
                refcount: 1,
                state: PolarisBlockState::AllocPending,
                flags: PolarisBlockFlags { shared: false },
                phase: src.phase,
                last_touch_ns: 0,
                map_time_ns: 0,
                cow_src_handle: 0,
                cow_src_block_id: 0,
                map_src_handle: src.gpu_phys_handle,
                retry_count: 0,
                pending_decision_id: decision_id,
                pending_fault_id: fault_id,
                pending_generation: generation,
                fault_timeout_ms: POLARIS_DEFAULT_FAULT_TIMEOUT_MS,
                waiter: fault_id,
            },
        );
        self.pending_faults.push(
            PolarisFault {
                fault_id,
                generation,
                gpu_id: f.gpu_id,
                fault_address: f.fault_address,
                block_id,
                access_type: f.access_type,
                state: 0,
                enqueue_ns: now,
                deadline_ns: 0,
                resolved_ns: 0,
            },
        );
        self.pending_decisions.push(
            PolarisDecision {
                decision_id,
                fault_id,
                generation,
                op: PolarisDecisionOp::MapExisting.to_u32(),
                gpu_id: f.gpu_id,
                block_id,
                session_id,
                src_handle: src.gpu_phys_handle,
                dst_handle: 0,
                src_vaddr: src.gpu_vaddr,
                dst_vaddr: f.fault_address,
                size_bytes: src.size_bytes,
                cpu_addr: 0,
                access_flags: f.access_type,
                timeout_ms: POLARIS_DEFAULT_FAULT_TIMEOUT_MS,
                _reserved: [0u64, 0u64, 0u64, 0u64],
            },
        );
        FaultStep::Wait { block_id, fault_id, timeout_ms: POLARIS_DEFAULT_FAULT_TIMEOUT_MS }
    }

    /// Take up what the wait for a block ended with: zero when the time was up,
    /// negative when the wait was interrupted.
    pub fn finish_gpu_fault(&mut self, block_id: u64, wait_ret: i64) -> (r: Result<(), i32>)
        ensures
            (r, final(self)@) == fault_ends(old(self)@, block_id, wait_ret),
    {
        if let Some(i) = self.find_block(block_id) {
            self.blocks[i].waiter = 0;
            if wait_ret == 0 && self.blocks[i].state != PolarisBlockState::Resident {
                self.blocks[i].state = PolarisBlockState::Evicted;
                let mut block = self.blocks[i];
                block.clear_rm_backing();
                self.blocks[i] = block;
                return Err(ETIMEDOUT);
            }
        }
        Ok(())
    }
}

/// Making room leaves a block that is not resident as it was.
proof fn lemma_room_keeps_block(
    v: PolarisView,
    f: GpuFault,
    i: int,
    handle: u64,
    source: u64,
    now: u64,
)
    requires
        0 <= i < v.blocks.len(),
        !(v.blocks[i].state is Resident),
    ensures
        ({
            let numbered = PolarisView { next_fault_id: (v.next_fault_id + 1) as u64, ..v };
            let b = v.blocks[i];
            let (_, w) = schedule_victim(
                numbered,
                b.session_id,
                f.gpu_id,
                b.size_bytes,
                handle,
                source,
                now,
            );
            w.blocks.len() == v.blocks.len() && w.blocks[i] == b && w.next_decision_id
                <= v.next_decision_id + 1
        }),
{
}

} // verus!
