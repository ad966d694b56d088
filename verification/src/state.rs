//! The state of the device: every table that sessions, executors and faults
//! share, its value, and the small steps that requests are made of.

use crate::abi::{
    PolarisBlockState, PolarisDecision, PolarisDecisionOp, PolarisEvictionPolicy,
};
use crate::errno::{ENOENT, ENOMEM};
use crate::num::sat_sub;
use crate::seqs::{any, as_index, find, first_index, is_first, retain};
use crate::types::{
    session_views, PolarisBlock, PolarisBlockMapping, PolarisFastStaticBlockSlot,
    PolarisFastVaSpaceSlot, PolarisFault, PolarisGpu, PolarisSession, PolarisStaticBlock,
    PolarisVaSpace, SessionView, UvmTelemetry, POLARIS_MAX_PENDING_DECISIONS,
};
use vstd::prelude::*;

verus! {

/// Slots of the lookup table of address spaces.
pub const POLARIS_MAX_FAST_VASPACES: usize = 16;

/// Slots of the lookup table of static blocks.
pub const POLARIS_MAX_FAST_STATIC_BLOCKS: usize = 16;

/// The tables of the device.
pub struct PolarisInner {
    pub next_block_id: u64,
    pub next_session_id: u64,
    pub next_decision_id: u64,
    pub next_fault_id: u64,
    pub next_range_id: u64,
    pub fault_generation: u64,
    /// How many open handles registered as executors.
    pub daemon_attached: u32,
    pub gpus: Vec<PolarisGpu>,
    pub blocks: Vec<PolarisBlock>,
    pub sessions: Vec<PolarisSession>,
    pub va_spaces: Vec<PolarisVaSpace>,
    pub static_blocks: Vec<PolarisStaticBlock>,
    pub block_mappings: Vec<PolarisBlockMapping>,
    pub pending_decisions: Vec<PolarisDecision>,
    pub pending_faults: Vec<PolarisFault>,
    pub eviction_policy: PolarisEvictionPolicy,
    pub offload_count: u64,
    pub reload_count: u64,
    pub total_evictions: u64,
    pub cow_break_count: u64,
    pub cow_copy_bytes: u64,
    /// The address spaces, as the fault hook looks them up.
    pub fast_va_spaces: Vec<PolarisFastVaSpaceSlot>,
    /// The static blocks, as the fault hook looks them up.
    pub fast_static_blocks: Vec<PolarisFastStaticBlockSlot>,
    pub uvm: UvmTelemetry,
}

/// The tables of the device as a value.
#[verifier::ext_equal]
pub struct PolarisView {
    pub next_block_id: u64,
    pub next_session_id: u64,
    pub next_decision_id: u64,
    pub next_fault_id: u64,
    pub next_range_id: u64,
    pub fault_generation: u64,
    pub daemon_attached: u32,
    pub gpus: Seq<PolarisGpu>,
    pub blocks: Seq<PolarisBlock>,
    pub sessions: Seq<SessionView>,
    pub va_spaces: Seq<PolarisVaSpace>,
    pub static_blocks: Seq<PolarisStaticBlock>,
    pub block_mappings: Seq<PolarisBlockMapping>,
    pub pending_decisions: Seq<PolarisDecision>,
    pub pending_faults: Seq<PolarisFault>,
    pub eviction_policy: PolarisEvictionPolicy,
    pub offload_count: u64,
    pub reload_count: u64,
    pub total_evictions: u64,
    pub cow_break_count: u64,
    pub cow_copy_bytes: u64,
    pub fast_va_spaces: Seq<PolarisFastVaSpaceSlot>,
    pub fast_static_blocks: Seq<PolarisFastStaticBlockSlot>,
    pub uvm: UvmTelemetry,
}

impl View for PolarisInner {
    type V = PolarisView;

    open spec fn view(&self) -> PolarisView {
        PolarisView {
            next_block_id: self.next_block_id,
            next_session_id: self.next_session_id,
            next_decision_id: self.next_decision_id,
            next_fault_id: self.next_fault_id,
            next_range_id: self.next_range_id,
            fault_generation: self.fault_generation,
            daemon_attached: self.daemon_attached,
            gpus: self.gpus@,
            blocks: self.blocks@,
            sessions: session_views(self.sessions@),
            va_spaces: self.va_spaces@,
            static_blocks: self.static_blocks@,
            block_mappings: self.block_mappings@,
            pending_decisions: self.pending_decisions@,
            pending_faults: self.pending_faults@,
            eviction_policy: self.eviction_policy,
            offload_count: self.offload_count,
            reload_count: self.reload_count,
            total_evictions: self.total_evictions,
            cow_break_count: self.cow_break_count,
            cow_copy_bytes: self.cow_copy_bytes,
            fast_va_spaces: self.fast_va_spaces@,
            fast_static_blocks: self.fast_static_blocks@,
            uvm: self.uvm,
        }
    }
}

// ─── Who is who ─────────────────────────────────────────────────────────────

/// Blocks with the id.
pub open spec fn block_is(id: u64) -> spec_fn(PolarisBlock) -> bool {
    |b: PolarisBlock| b.block_id == id
}

/// GPUs with the id.
pub open spec fn gpu_is(id: u32) -> spec_fn(PolarisGpu) -> bool {
    |g: PolarisGpu| g.gpu_id == id
}

/// Sessions with the id.
pub open spec fn session_is(id: u64) -> spec_fn(SessionView) -> bool {
    |s: SessionView| s.session_id == id
}

/// Other ids.
pub open spec fn id_is_not(id: u64) -> spec_fn(u64) -> bool {
    |x: u64| x != id
}

/// Mappings of other blocks.
pub open spec fn mapping_not_of(id: u64) -> spec_fn(PolarisBlockMapping) -> bool {
    |m: PolarisBlockMapping| m.block_id != id
}

/// The static block sits where the mapping shows its block.
pub open spec fn same_place(m: PolarisBlockMapping, s: PolarisStaticBlock) -> bool {
    &&& s.gpu_id == m.gpu_id
    &&& s.rm_client_token == m.rm_client_token
    &&& s.va_space_token == m.va_space_token
    &&& s.base == m.base
}

/// Static blocks that sit where no mapping shows the block.
pub open spec fn static_block_apart_from(
    mappings: Seq<PolarisBlockMapping>,
    block_id: u64,
) -> spec_fn(PolarisStaticBlock) -> bool {
    |s: PolarisStaticBlock|
        !exists|i: int|
            0 <= i < mappings.len() && (#[trigger] mappings[i]).block_id == block_id && same_place(
                mappings[i],
                s,
            )
}

/// Slots of a static block.
pub open spec fn static_slot_is(
    gpu_id: u32,
    rm_client_token: u64,
    va_space_token: u64,
    base: u64,
) -> spec_fn(PolarisFastStaticBlockSlot) -> bool {
    |s: PolarisFastStaticBlockSlot|
        s.va_space_token == va_space_token && s.gpu_id == gpu_id && s.rm_client_token
            == rm_client_token && s.base == base
}

/// A free slot of the table of static blocks.
pub open spec fn free_static_slot() -> PolarisFastStaticBlockSlot {
    PolarisFastStaticBlockSlot {
        gpu_id: 0,
        rm_client_token: 0,
        rm_control_fd: 0,
        h_client: 0,
        h_memory: 0,
        va_space_token: 0,
        base: 0,
        length: 0,
        offset: 0,
        last_gpu_va_space_ptr: 0,
    }
}

/// A free slot of the table of address spaces.
pub open spec fn free_va_slot() -> PolarisFastVaSpaceSlot {
    PolarisFastVaSpaceSlot {
        gpu_id: 0,
        rm_client_token: 0,
        va_space_token: 0,
        managed_base: 0,
        managed_length: 0,
    }
}

/// The table of static blocks without the one at a place.
pub open spec fn static_slot_freed(
    slots: Seq<PolarisFastStaticBlockSlot>,
    gpu_id: u32,
    rm_client_token: u64,
    va_space_token: u64,
    base: u64,
) -> Seq<PolarisFastStaticBlockSlot> {
    if va_space_token == 0 {
        slots
    } else {
        match first_index(slots, static_slot_is(gpu_id, rm_client_token, va_space_token, base)) {
            Some(i) => slots.update(i, free_static_slot()),
            None => slots,
        }
    }
}

/// The table of static blocks without those at the places of a block.
pub open spec fn static_slots_freed_for_block(
    slots: Seq<PolarisFastStaticBlockSlot>,
    mappings: Seq<PolarisBlockMapping>,
    block_id: u64,
) -> Seq<PolarisFastStaticBlockSlot>
    decreases mappings.len(),
{
    if mappings.len() == 0 {
        slots
    } else {
        let rest = static_slots_freed_for_block(slots, mappings.drop_last(), block_id);
        let m = mappings.last();
        if m.block_id == block_id {
            static_slot_freed(rest, m.gpu_id, m.rm_client_token, m.va_space_token, m.base)
        } else {
            rest
        }
    }
}

/// A decision about a block as it stands, with nothing to wait for.
pub open spec fn plain_decision(
    decision_id: u64,
    op: PolarisDecisionOp,
    b: PolarisBlock,
    cpu_addr: u64,
) -> PolarisDecision {
    PolarisDecision {
        decision_id,
        fault_id: 0,
        generation: 0,
        op: op.code(),
        gpu_id: b.home_gpu,
        block_id: b.block_id,
        session_id: b.session_id,
        src_handle: b.gpu_phys_handle,
        dst_handle: 0,
        src_vaddr: b.gpu_vaddr,
        dst_vaddr: 0,
        size_bytes: b.size_bytes,
        cpu_addr,
        access_flags: 0,
        timeout_ms: 0,
        _reserved: [0u64, 0u64, 0u64, 0u64],
    }
}

impl PolarisView {
    /// The first block with the id.
    pub open spec fn find_block(self, id: u64) -> Option<int> {
        first_index(self.blocks, block_is(id))
    }

    /// The first GPU with the id.
    pub open spec fn find_gpu(self, id: u32) -> Option<int> {
        first_index(self.gpus, gpu_is(id))
    }

    /// The first session with the id.
    pub open spec fn find_session(self, id: u64) -> Option<int> {
        first_index(self.sessions, session_is(id))
    }

    /// The state with one block replaced.
    pub open spec fn with_block(self, i: int, b: PolarisBlock) -> PolarisView {
        PolarisView { blocks: self.blocks.update(i, b), ..self }
    }

    /// The state after the static blocks at the places of a block are forgotten.
    pub open spec fn forgetting_static_blocks_of(self, block_id: u64) -> PolarisView {
        PolarisView {
            static_blocks: self.static_blocks.filter(
                static_block_apart_from(self.block_mappings, block_id),
            ),
            fast_static_blocks: static_slots_freed_for_block(
                self.fast_static_blocks,
                self.block_mappings,
                block_id,
            ),
            ..self
        }
    }

    /// The state after a block is taken out of every address space.
    pub open spec fn without_mappings_of(self, block_id: u64) -> PolarisView {
        PolarisView {
            block_mappings: self.block_mappings.filter(mapping_not_of(block_id)),
            ..self
        }
    }

    /// The state after a block is struck from a session's list.
    pub open spec fn without_listing(self, session_id: u64, block_id: u64) -> PolarisView {
        match self.find_session(session_id) {
            Some(s) => PolarisView {
                sessions: self.sessions.update(
                    s,
                    SessionView {
                        block_ids: self.sessions[s].block_ids.filter(id_is_not(block_id)),
                        ..self.sessions[s]
                    },
                ),
                ..self
            },
            None => self,
        }
    }

    /// The state after the books are set right for a block that goes at once.
    pub open spec fn accounting_removal(self, b: PolarisBlock) -> PolarisView {
        match self.find_gpu(b.home_gpu) {
            Some(g) => {
                let gpu = self.gpus[g];
                PolarisView {
                    gpus: self.gpus.update(
                        g,
                        if b.state is Resident {
                            PolarisGpu {
                                used_bytes: sat_sub(gpu.used_bytes, b.size_bytes),
                                ..gpu
                            }
                        } else if b.cpu_buf_addr != 0 {
                            PolarisGpu {
                                cpu_pool_used_bytes: sat_sub(
                                    gpu.cpu_pool_used_bytes,
                                    b.size_bytes,
                                ),
                                ..gpu
                            }
                        } else {
                            gpu
                        },
                    ),
                    ..self
                }
            },
            None => self,
        }
    }

    /// The state after a decision about block `i` is queued.
    pub open spec fn queueing(self, i: int, state: PolarisBlockState, d: PolarisDecision) -> PolarisView {
        PolarisView {
            next_decision_id: (self.next_decision_id + 1) as u64,
            pending_decisions: self.pending_decisions.push(d),
            blocks: self.blocks.update(
                i,
                PolarisBlock {
                    state,
                    pending_decision_id: self.next_decision_id,
                    pending_fault_id: 0,
                    pending_generation: 0,
                    ..self.blocks[i]
                },
            ),
            ..self
        }
    }

    /// As many decisions are queued as may be.
    pub open spec fn queue_is_full(self) -> bool {
        self.pending_decisions.len() >= POLARIS_MAX_PENDING_DECISIONS
    }

    /// What comes of asking to move block `i` to host memory. The decision names
    /// its memory, or none where the resource manager's backs it.
    pub open spec fn queue_offload(self, i: int) -> (Result<u64, i32>, PolarisView) {
        let numbered = PolarisView { next_decision_id: (self.next_decision_id + 1) as u64, ..self };
        if !(0 <= i < self.blocks.len()) {
            (Err(ENOENT), self)
        } else if self.queue_is_full() {
            (Err(ENOMEM), self)
        } else if !(self.blocks[i].state is Resident) {
            (Err(ENOENT), numbered)
        } else if self.blocks[i].gpu_phys_handle == 0 && !self.blocks[i].rm_backed() {
            (Err(ENOENT), numbered)
        } else {
            (
                Ok(self.next_decision_id),
                self.queueing(
                    i,
                    PolarisBlockState::OffloadPending,
                    plain_decision(
                        self.next_decision_id,
                        PolarisDecisionOp::Offload,
                        self.blocks[i],
                        0,
                    ),
                ),
            )
        }
    }

    /// What comes of asking to give the memory of block `i` back.
    pub open spec fn queue_free(self, i: int) -> (Result<u64, i32>, PolarisView) {
        if !(0 <= i < self.blocks.len()) {
            (Err(ENOENT), self)
        } else if self.queue_is_full() {
            (Err(ENOMEM), self)
        } else if !self.blocks[i].needs_free() {
            (Err(ENOENT), self)
        } else {
            (
                Ok(self.next_decision_id),
                self.queueing(
                    i,
                    PolarisBlockState::FreePending,
                    plain_decision(
                        self.next_decision_id,
                        PolarisDecisionOp::Free,
                        self.blocks[i],
                        self.blocks[i].cpu_buf_addr,
                    ),
                ),
            )
        }
    }
}

impl PolarisInner {
    /// The state before anything has happened.
    pub fn new() -> (r: PolarisInner)
        ensures
            r@ == initial_view(),
    {
        let mut fast_va_spaces: Vec<PolarisFastVaSpaceSlot> = Vec::new();
        let mut i: usize = 0;
        while i < POLARIS_MAX_FAST_VASPACES
            invariant
                i <= POLARIS_MAX_FAST_VASPACES,
                fast_va_spaces@ == Seq::new(i as nat, |k: int| free_va_slot()),
            decreases POLARIS_MAX_FAST_VASPACES - i,
        {
            fast_va_spaces.push(
                PolarisFastVaSpaceSlot {
                    gpu_id: 0,
                    rm_client_token: 0,
                    va_space_token: 0,
                    managed_base: 0,
                    managed_length: 0,
                },
            );
            i += 1;
        }
        let mut fast_static_blocks: Vec<PolarisFastStaticBlockSlot> = Vec::new();
        let mut j: usize = 0;
        while j < POLARIS_MAX_FAST_STATIC_BLOCKS
            invariant
                j <= POLARIS_MAX_FAST_STATIC_BLOCKS,
                fast_static_blocks@ == Seq::new(j as nat, |k: int| free_static_slot()),
            decreases POLARIS_MAX_FAST_STATIC_BLOCKS - j,
        {
            fast_static_blocks.push(
                PolarisFastStaticBlockSlot {
                    gpu_id: 0,
                    rm_client_token: 0,
                    rm_control_fd: 0,
                    h_client: 0,
                    h_memory: 0,
                    va_space_token: 0,
                    base: 0,
                    length: 0,
                    offset: 0,
                    last_gpu_va_space_ptr: 0,
                },
            );
            j += 1;
        }
        PolarisInner {
            next_block_id: 1,
            next_session_id: 1,
            next_decision_id: 1,
            next_fault_id: 1,
            next_range_id: 1,
            fault_generation: 1,
            daemon_attached: 0,
            gpus: Vec::new(),
            blocks: Vec::new(),
            sessions: Vec::new(),
            va_spaces: Vec::new(),
            static_blocks: Vec::new(),
            block_mappings: Vec::new(),
            pending_decisions: Vec::new(),
            pending_faults: Vec::new(),
            eviction_policy: PolarisEvictionPolicy::Fifo,
            offload_count: 0,
            reload_count: 0,
            total_evictions: 0,
            cow_break_count: 0,
            cow_copy_bytes: 0,
            fast_va_spaces,
            fast_static_blocks,
            uvm: UvmTelemetry {
                hook_calls: 0,
                fast_matches: 0,
                fast_misses: 0,
                unserviceable: 0,
                handled: 0,
                errors: 0,
                last_gpu_id: 0,
                last_rm_client_token: 0,
                last_va_space_token: 0,
                last_gpu_va_space_ptr: 0,
                last_fault_address: 0,
                last_access_type: 0,
                last_map_ret: 0,
                last_ensure_ret: 0,
                last_result: 0,
            },
        }
    }

    /// The first block with the id.
    pub fn find_block(&self, id: u64) -> (r: Option<usize>)
        ensures
            as_index(r) == self@.find_block(id),
            r matches Some(i) ==> is_first(self@.blocks, block_is(id), i as int),
            r is None ==> !any(self@.blocks, block_is(id)),
    {
        find(
            &self.blocks,
            |b: &PolarisBlock| -> (r: bool)
                ensures
                    r == (b.block_id == id)
                { b.block_id == id },
            Ghost(block_is(id)),
        )
    }

    /// The first GPU with the id.
    pub fn find_gpu(&self, id: u32) -> (r: Option<usize>)
        ensures
            as_index(r) == self@.find_gpu(id),
            r matches Some(i) ==> is_first(self@.gpus, gpu_is(id), i as int),
            r is None ==> !any(self@.gpus, gpu_is(id)),
    {
        find(
            &self.gpus,
            |g: &PolarisGpu| -> (r: bool)
                ensures
                    r == (g.gpu_id == id)
                { g.gpu_id == id },
            Ghost(gpu_is(id)),
        )
    }

    /// The first session with the id.
    pub fn find_session(&self, id: u64) -> (r: Option<usize>)
        ensures
            as_index(r) == self@.find_session(id),
            r matches Some(i) ==> is_first(self@.sessions, session_is(id), i as int),
            r is None ==> !any(self@.sessions, session_is(id)),
    {
        let mut i: usize = 0;
        while i < self.sessions.len()
            invariant
                0 <= i <= self.sessions@.len(),
                forall|k: int| 0 <= k < i ==> (#[trigger] self@.sessions[k]).session_id != id,
            decreases self.sessions@.len() - i,
        {
            if self.sessions[i].session_id == id {
                proof {
                    crate::seqs::lemma_first_index_is(self@.sessions, session_is(id), i as int);
                }
                return Some(i);
            }
            i += 1;
        }
        None
    }

    /// Free the slot of the static block at a place.
    pub fn fast_static_block_unregister(
        &mut self,
        gpu_id: u32,
        rm_client_token: u64,
        va_space_token: u64,
        base: u64,
    )
        ensures
            final(self)@ == (PolarisView {
                fast_static_blocks: static_slot_freed(
                    old(self)@.fast_static_blocks,
                    gpu_id,
                    rm_client_token,
                    va_space_token,
                    base,
                ),
                ..old(self)@
            }),
            final(self).block_mappings@ == old(self).block_mappings@,
    {
        if va_space_token == 0 {
            return ;
        }
        let at = find(
            &self.fast_static_blocks,
            |s: &PolarisFastStaticBlockSlot| -> (r: bool)
                ensures
                    r == (s.va_space_token == va_space_token && s.gpu_id == gpu_id
                        && s.rm_client_token == rm_client_token && s.base == base)
                {
                    s.va_space_token == va_space_token && s.gpu_id == gpu_id && s.rm_client_token
                        == rm_client_token && s.base == base
                },
            Ghost(static_slot_is(gpu_id, rm_client_token, va_space_token, base)),
        );
        if let Some(i) = at {
            self.fast_static_blocks[i] = PolarisFastStaticBlockSlot {
                gpu_id: 0,
                rm_client_token: 0,
                rm_control_fd: 0,
                h_client: 0,
                h_memory: 0,
                va_space_token: 0,
                base: 0,
                length: 0,
                offset: 0,
                last_gpu_va_space_ptr: 0,
            };
        }
    }

    /// Forget the static blocks at the places of a block.
    pub fn forget_static_blocks_for_block(&mut self, block_id: u64)
        ensures
            final(self)@ == old(self)@.forgetting_static_blocks_of(block_id),
    {
        let ghost start = self@;
        let mut k: usize = 0;
        while k < self.block_mappings.len()
            invariant
                0 <= k <= self.block_mappings@.len(),
                self@ == (PolarisView {
                    fast_static_blocks: static_slots_freed_for_block(
                        start.fast_static_blocks,
                        start.block_mappings.take(k as int),
                        block_id,
                    ),
                    ..start
                }),
                self.block_mappings@ == start.block_mappings,
            decreases self.block_mappings@.len() - k,
        {
            let m = self.block_mappings[k];
            assert(start.block_mappings.take(k as int + 1).drop_last()
                =~= start.block_mappings.take(k as int));
            if m.block_id == block_id {
                self.fast_static_block_unregister(
                    m.gpu_id,
                    m.rm_client_token,
                    m.va_space_token,
                    m.base,
                );
            }
            k += 1;
        }
        assert(start.block_mappings.take(k as int) =~= start.block_mappings);
        let mappings = &self.block_mappings;
        retain(
            &mut self.static_blocks,
            |s: &PolarisStaticBlock| -> (r: bool)
                ensures
                    r == static_block_apart_from(start.block_mappings, block_id)(*s)
                { !place_of_block(mappings, block_id, s) },
            Ghost(static_block_apart_from(start.block_mappings, block_id)),
        );
    }

    /// Take a block out of every address space.
    pub fn drop_mappings_of(&mut self, block_id: u64)
        ensures
            final(self)@ == old(self)@.without_mappings_of(block_id),
    {
        retain(
            &mut self.block_mappings,
            |m: &PolarisBlockMapping| -> (r: bool)
                ensures
                    r == (m.block_id != block_id)
                { m.block_id != block_id },
            Ghost(mapping_not_of(block_id)),
        );
    }

    /// Strike a block from a session's list.
    pub fn drop_listing(&mut self, session_id: u64, block_id: u64)
        ensures
            final(self)@ == old(self)@.without_listing(session_id, block_id),
    {
        if let Some(s) = self.find_session(session_id) {
            let ghost before = self@;
            retain(
                &mut self.sessions[s].block_ids,
                |x: &u64| -> (r: bool)
                    ensures
                        r == (*x != block_id)
                    { *x != block_id },
                Ghost(id_is_not(block_id)),
            );
            assert(self@.sessions =~= before.without_listing(session_id, block_id).sessions);
        }
    }

    /// Set the books right for a block that goes at once.
    pub fn account_direct_block_removal(&mut self, b: PolarisBlock)
        ensures
            final(self)@ == old(self)@.accounting_removal(b),
    {
        if let Some(g) = self.find_gpu(b.home_gpu) {
            if b.state == PolarisBlockState::Resident {
                self.gpus[g].used_bytes = self.gpus[g].used_bytes.saturating_sub(b.size_bytes);
            } else if b.cpu_buf_addr != 0 {
                self.gpus[g].cpu_pool_used_bytes =
                self.gpus[g].cpu_pool_used_bytes.saturating_sub(b.size_bytes);
            }
        }
    }

    /// Ask the executor to move block `i` to host memory.
    pub fn queue_offload_decision(&mut self, i: usize) -> (r: Result<u64, i32>)
        requires
            old(self).next_decision_id < u64::MAX,
        ensures
            (r, final(self)@) == old(self)@.queue_offload(i as int),
    {
        if i >= self.blocks.len() {
            return Err(ENOENT);
        }
        if self.pending_decisions.len() >= POLARIS_MAX_PENDING_DECISIONS {
            return Err(ENOMEM);
        }
        let decision_id = self.next_decision_id;
        self.next_decision_id = decision_id + 1;
        let block = self.blocks[i];
        if block.state != PolarisBlockState::Resident {
            return Err(ENOENT);
        }
        if block.gpu_phys_handle == 0 && !block.has_rm_backing() {
            return Err(ENOENT);
        }
        self.pending_decisions.push(
            PolarisDecision {
                decision_id,
                fault_id: 0,
                generation: 0,
                op: PolarisDecisionOp::Offload.to_u32(),
                gpu_id: block.home_gpu,
                block_id: block.block_id,
                session_id: block.session_id,
                src_handle: block.gpu_phys_handle,
                dst_handle: 0,
                src_vaddr: block.gpu_vaddr,
                dst_vaddr: 0,
                size_bytes: block.size_bytes,
                cpu_addr: 0,
                access_flags: 0,
                timeout_ms: 0,
                _reserved: [0u64, 0u64, 0u64, 0u64],
            },
        );
        self.blocks[i].state = PolarisBlockState::OffloadPending;
        self.blocks[i].pending_decision_id = decision_id;
        self.blocks[i].pending_fault_id = 0;
        self.blocks[i].pending_generation = 0;
        Ok(decision_id)
    }

    /// Ask the executor to give the memory of block `i` back.
    pub fn queue_free_decision(&mut self, i: usize) -> (r: Result<u64, i32>)
        requires
            old(self).next_decision_id < u64::MAX,
        ensures
            (r, final(self)@) == old(self)@.queue_free(i as int),
    {
        if i >= self.blocks.len() {
            return Err(ENOENT);
        }
        if self.pending_decisions.len() >= POLARIS_MAX_PENDING_DECISIONS {
            return Err(ENOMEM);
        }
        let block = self.blocks[i];
        if !block.needs_free_decision() {
            return Err(ENOENT);
        }
        let decision_id = self.next_decision_id;
        self.next_decision_id = decision_id + 1;
        self.pending_decisions.push(
            PolarisDecision {
                decision_id,
                fault_id: 0,
                generation: 0,
                op: PolarisDecisionOp::Free.to_u32(),
                gpu_id: block.home_gpu,
                block_id: block.block_id,
                session_id: block.session_id,
                src_handle: block.gpu_phys_handle,
                dst_handle: 0,
                src_vaddr: block.gpu_vaddr,
                dst_vaddr: 0,
                size_bytes: block.size_bytes,
                cpu_addr: block.cpu_buf_addr,
                access_flags: 0,
                timeout_ms: 0,
                _reserved: [0u64, 0u64, 0u64, 0u64],
            },
        );
        self.blocks[i].state = PolarisBlockState::FreePending;
        self.blocks[i].pending_decision_id = decision_id;
        self.blocks[i].pending_fault_id = 0;
        self.blocks[i].pending_generation = 0;
        Ok(decision_id)
    }
}

/// The state before anything has happened.
pub open spec fn initial_view() -> PolarisView {
    PolarisView {
        next_block_id: 1,
        next_session_id: 1,
        next_decision_id: 1,
        next_fault_id: 1,
        next_range_id: 1,
        fault_generation: 1,
        daemon_attached: 0,
        gpus: Seq::empty(),
        blocks: Seq::empty(),
        sessions: Seq::empty(),
        va_spaces: Seq::empty(),
        static_blocks: Seq::empty(),
        block_mappings: Seq::empty(),
        pending_decisions: Seq::empty(),
        pending_faults: Seq::empty(),
        eviction_policy: PolarisEvictionPolicy::Fifo,
        offload_count: 0,
        reload_count: 0,
        total_evictions: 0,
        cow_break_count: 0,
        cow_copy_bytes: 0,
        fast_va_spaces: Seq::new(16, |k: int| free_va_slot()),
        fast_static_blocks: Seq::new(16, |k: int| free_static_slot()),
        uvm: UvmTelemetry {
            hook_calls: 0,
            fast_matches: 0,
            fast_misses: 0,
            unserviceable: 0,
            handled: 0,
            errors: 0,
            last_gpu_id: 0,
            last_rm_client_token: 0,
            last_va_space_token: 0,
            last_gpu_va_space_ptr: 0,
            last_fault_address: 0,
            last_access_type: 0,
            last_map_ret: 0,
            last_ensure_ret: 0,
            last_result: 0,
        },
    }
}

/// Whether a static block sits where a mapping shows the block.
fn place_of_block(mappings: &Vec<PolarisBlockMapping>, block_id: u64, s: &PolarisStaticBlock) -> (r: bool)
    ensures
        r == !static_block_apart_from(mappings@, block_id)(*s),
{
    let mut i: usize = 0;
    while i < mappings.len()
        invariant
            0 <= i <= mappings@.len(),
            forall|k: int|
                0 <= k < i ==> !((#[trigger] mappings@[k]).block_id == block_id && same_place(
                    mappings@[k],
                    *s,
                )),
        decreases mappings@.len() - i
    {
        let m = &mappings[i];
        if m.block_id == block_id && s.gpu_id == m.gpu_id && s.rm_client_token == m.rm_client_token
            && s.va_space_token == m.va_space_token && s.base == m.base {
            return true;
        }
        i += 1;
    }
    false
}

} // verus!
