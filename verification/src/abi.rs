//! The interface between the device and its users: block states, decision
//! opcodes, flags, limits, and the argument records of the device commands.

use vstd::prelude::*;

verus! {

/// Where a block stands in its life.
#[derive(Clone, Copy, PartialEq, Eq, Structural, Debug)]
pub enum PolarisBlockState {
    FreePending,
    Resident,
    AllocPending,
    Unmapped,
    CpuOffloaded,
    OffloadPending,
    ReloadPending,
    CowPending,
    Evicted,
}

impl PolarisBlockState {
    /// The number that stands for the state in argument records.
    pub open spec fn code(self) -> u32 {
        match self {
            PolarisBlockState::FreePending => 0,
            PolarisBlockState::Resident => 1,
            PolarisBlockState::AllocPending => 2,
            PolarisBlockState::Unmapped => 3,
            PolarisBlockState::CpuOffloaded => 4,
            PolarisBlockState::OffloadPending => 5,
            PolarisBlockState::ReloadPending => 6,
            PolarisBlockState::CowPending => 7,
            PolarisBlockState::Evicted => 8,
        }
    }

    /// The number that stands for the state in argument records.
    pub fn to_u32(self) -> (r: u32)
        ensures
            r == self.code(),
    {
        match self {
            PolarisBlockState::FreePending => 0,
            PolarisBlockState::Resident => 1,
            PolarisBlockState::AllocPending => 2,
            PolarisBlockState::Unmapped => 3,
            PolarisBlockState::CpuOffloaded => 4,
            PolarisBlockState::OffloadPending => 5,
            PolarisBlockState::ReloadPending => 6,
            PolarisBlockState::CowPending => 7,
            PolarisBlockState::Evicted => 8,
        }
    }

    /// The executor owes a completion for a block in this state.
    pub open spec fn pending(self) -> bool {
        self is AllocPending || self is OffloadPending || self is ReloadPending || self is CowPending
            || self is FreePending
    }

    /// Whether the executor owes a completion for a block in this state.
    pub fn is_pending(self) -> (r: bool)
        ensures
            r == self.pending(),
    {
        matches!(
            self,
            PolarisBlockState::AllocPending | PolarisBlockState::OffloadPending
            | PolarisBlockState::ReloadPending | PolarisBlockState::CowPending
            | PolarisBlockState::FreePending
        )
    }
}

/// The phase of inference that produced a block.
#[derive(Clone, Copy, PartialEq, Eq, Structural, Debug)]
pub enum PolarisPhase {
    Prefill,
    Decode,
}

impl PolarisPhase {
    /// The number that stands for the phase in argument records.
    pub open spec fn code(self) -> u32 {
        match self {
            PolarisPhase::Prefill => 1,
            PolarisPhase::Decode => 2,
        }
    }

    /// The number that stands for the phase in argument records.
    pub fn to_u32(self) -> (r: u32)
        ensures
            r == self.code(),
    {
        match self {
            PolarisPhase::Prefill => 1,
            PolarisPhase::Decode => 2,
        }
    }

    /// What a record's phase number means: decode, and prefill for all else.
    pub open spec fn of_code(code: u32) -> PolarisPhase {
        if code == 2 {
            PolarisPhase::Decode
        } else {
            PolarisPhase::Prefill
        }
    }

    /// What a record's phase number means: decode, and prefill for all else.
    pub fn from_u32(code: u32) -> (r: PolarisPhase)
        ensures
            r == PolarisPhase::of_code(code),
    {
        if code == 2 {
            PolarisPhase::Decode
        } else {
            PolarisPhase::Prefill
        }
    }
}

/// How a victim is chosen under memory pressure.
#[derive(Clone, Copy, PartialEq, Eq, Structural, Debug)]
pub enum PolarisEvictionPolicy {
    /// Victim = block with the oldest map_time_ns.
    Fifo,
    /// Victim = block with the oldest last_touch_ns.
    Lru,
    /// Victim = highest scoring function value (prefill preferred, decode/recent protected).
    PhaseAware,
    /// Victim = largest reuse distance from the session's active attention window.
    AttentionStream,
}

impl PolarisEvictionPolicy {
    /// The number that stands for the policy in argument records.
    pub open spec fn code(self) -> u32 {
        match self {
            PolarisEvictionPolicy::Fifo => 0,
            PolarisEvictionPolicy::Lru => 1,
            PolarisEvictionPolicy::PhaseAware => 2,
            PolarisEvictionPolicy::AttentionStream => 3,
        }
    }

    /// The number that stands for the policy in argument records.
    pub fn to_u32(self) -> (r: u32)
        ensures
            r == self.code(),
    {
        match self {
            PolarisEvictionPolicy::Fifo => 0,
            PolarisEvictionPolicy::Lru => 1,
            PolarisEvictionPolicy::PhaseAware => 2,
            PolarisEvictionPolicy::AttentionStream => 3,
        }
    }

    /// The policy that a number stands for, if it stands for one.
    pub fn from_u32(code: u32) -> (r: Option<PolarisEvictionPolicy>)
        ensures
            r is Some <==> code <= 3,
            r matches Some(p) ==> p.code() == code,
    {
        match code {
            0 => Some(PolarisEvictionPolicy::Fifo),
            1 => Some(PolarisEvictionPolicy::Lru),
            2 => Some(PolarisEvictionPolicy::PhaseAware),
            3 => Some(PolarisEvictionPolicy::AttentionStream),
            _ => None,
        }
    }
}

/// What a decision asks the executor to do.
#[derive(Clone, Copy, PartialEq, Eq, Structural, Debug)]
pub enum PolarisDecisionOp {
    Alloc,
    Free,
    MapExisting,
    Unmap,
    Offload,
    Reload,
    CowBreak,
}

impl PolarisDecisionOp {
    /// The number that stands for the opcode in a decision.
    pub open spec fn code(self) -> u32 {
        match self {
            PolarisDecisionOp::Alloc => 0,
            PolarisDecisionOp::Free => 1,
            PolarisDecisionOp::MapExisting => 2,
            PolarisDecisionOp::Unmap => 3,
            PolarisDecisionOp::Offload => 4,
            PolarisDecisionOp::Reload => 5,
            PolarisDecisionOp::CowBreak => 6,
        }
    }

    /// The number that stands for the opcode in a decision.
    pub fn to_u32(self) -> (r: u32)
        ensures
            r == self.code(),
    {
        match self {
            PolarisDecisionOp::Alloc => 0,
            PolarisDecisionOp::Free => 1,
            PolarisDecisionOp::MapExisting => 2,
            PolarisDecisionOp::Unmap => 3,
            PolarisDecisionOp::Offload => 4,
            PolarisDecisionOp::Reload => 5,
            PolarisDecisionOp::CowBreak => 6,
        }
    }

    /// The opcode that a number stands for, if it stands for one.
    pub fn from_u32(code: u32) -> (r: Option<PolarisDecisionOp>)
        ensures
            r is Some <==> code <= 6,
            r matches Some(op) ==> op.code() == code,
    {
        match code {
            0 => Some(PolarisDecisionOp::Alloc),
            1 => Some(PolarisDecisionOp::Free),
            2 => Some(PolarisDecisionOp::MapExisting),
            3 => Some(PolarisDecisionOp::Unmap),
            4 => Some(PolarisDecisionOp::Offload),
            5 => Some(PolarisDecisionOp::Reload),
            6 => Some(PolarisDecisionOp::CowBreak),
            _ => None,
        }
    }
}
pub const POLARIS_BLOCK_FLAG_SHARED: u32 = 1;
pub const POLARIS_RESERVE_FLAG_OVERWRITE: u32 = 1;
pub const POLARIS_RESERVE_FLAG_READ_MOSTLY: u32 = 2;
pub const POLARIS_RESERVE_FLAG_WRITE_NEW: u32 = 4;
pub const POLARIS_RESERVE_FLAG_FULL_OVERWRITE_NO_PRESERVE: u32 = 8;
pub const POLARIS_RESERVE_FLAG_DEFER_FAULT: u32 = 16;
pub const POLARIS_RELEASE_FLAG_STREAM_QUIESCED: u32 = 1;
pub const POLARIS_RELEASE_FLAG_CALLER_OWNS_BACKING: u32 = 2;
pub const POLARIS_REGISTER_GPU_FLAG_TRANSIENT: u32 = 1;
pub const POLARIS_RM_PHYS_FLAG_CONTIGUOUS: u64 = 1;
pub const POLARIS_RM_PHYS_FLAG_SYSMEM: u64 = 2;
pub const POLARIS_RM_PHYS_FLAG_EGM: u64 = 4;
pub const POLARIS_RM_PHYS_FLAG_FABRICMEM: u64 = 8;
pub const POLARIS_DECISION_FLAG_SOURCE_BLOCK_ID_VALID: u64 = 1;
pub const POLARIS_RM_COPY_NO_MISMATCH: u64 = 0xffff_ffff_ffff_ffff;
pub const POLARIS_RM_COPY_TO_CPU: u32 = 0;
pub const POLARIS_RM_COPY_FROM_CPU: u32 = 1;
pub const POLARIS_KV_HINT_FLAG_CLEAR: u32 = 1;
pub const POLARIS_DEFAULT_FAULT_TIMEOUT_MS: u32 = 5000;
pub const POLARIS_MAX_DECISIONS_PER_POLL: usize = 16;
pub const POLARIS_MAX_SESSIONS_PER_LIST: usize = 64;
pub const POLARIS_DEFAULT_BYTES_PER_TOKEN: u64 = 524_288;
pub const POLARIS_DEFAULT_SESSION_VA_BYTES: u64 = 4_294_967_296;
pub const POLARIS_VA_ALIGNMENT: u64 = 2_097_152;

/// Announces a GPU and its capacities.
#[derive(Clone, Copy, Debug, PartialEq, Eq, Default)]
pub struct PolarisRegisterGpuArg {
    pub gpu_id: u32,
    pub total_bytes: u64,
    pub budget_bytes: u64,
    pub cpu_pool_bytes: u64,
    pub numa_node: u32,
    pub _reserved: u32,
    pub _reserved2: [u64; 2],
}

/// Hands the device a range of GPU addresses to carve sessions from.
#[derive(Clone, Copy, Debug, PartialEq, Eq, Default)]
pub struct PolarisRegisterVaRangeArg {
    pub range_id: u64,
    pub gpu_id: u32,
    pub flags: u32,
    pub base: u64,
    pub length: u64,
    pub block_size: u64,
    pub _reserved: [u64; 4],
}

/// Announces a fault-capable address space and its managed window.
#[derive(Clone, Copy, Debug, PartialEq, Eq, Default)]
pub struct PolarisRegisterVaSpaceArg {
    pub gpu_id: u32,
    pub _reserved0: u32,
    pub rm_client_token: u64,
    pub va_space_token: u64,
    pub managed_base: u64,
    pub managed_length: u64,
    pub _reserved1: [u64; 3],
}

/// Withdraws an address space.
#[derive(Clone, Copy, Debug, PartialEq, Eq, Default)]
pub struct PolarisUnregisterVaSpaceArg {
    pub gpu_id: u32,
    pub _reserved0: u32,
    pub rm_client_token: u64,
    pub va_space_token: u64,
    pub _reserved1: [u64; 1],
}

/// Announces memory that is to be mapped at a fixed place on a fault.
#[derive(Clone, Copy, Debug, PartialEq, Eq, Default)]
pub struct PolarisRegisterStaticBlockArg {
    pub gpu_id: u32,
    pub rm_control_fd: i32,
    pub rm_client_token: u64,
    pub va_space_token: u64,
    pub base: u64,
    pub length: u64,
    pub offset: u64,
    pub h_client: u32,
    pub h_memory: u32,
    pub _reserved: [u64; 4],
}

/// Takes the mapping of a static block away.
#[derive(Clone, Copy, Debug, PartialEq, Eq, Default)]
pub struct PolarisUnmapStaticBlockArg {
    pub gpu_id: u32,
    pub _reserved0: u32,
    pub rm_client_token: u64,
    pub va_space_token: u64,
    pub base: u64,
    pub length: u64,
    pub _reserved: [u64; 4],
}

/// Says where in an address space a block appears.
#[derive(Clone, Copy, Debug, PartialEq, Eq, Default)]
pub struct PolarisRegisterBlockMappingArg {
    pub block_id: u64,
    pub gpu_id: u32,
    pub _reserved0: u32,
    pub rm_client_token: u64,
    pub va_space_token: u64,
    pub base: u64,
    pub length: u64,
    pub _reserved: [u64; 4],
}

/// Says what memory backs a block.
#[derive(Clone, Copy, Debug, PartialEq, Eq, Default)]
pub struct PolarisRegisterBlockBackingArg {
    pub block_id: u64,
    pub gpu_id: u32,
    pub rm_control_fd: i32,
    pub h_client: u32,
    pub h_memory: u32,
    pub length: u64,
    pub offset: u64,
    pub _reserved: [u64; 3],
}

/// Takes the observed mappings of a block away.
#[derive(Clone, Copy, Debug, PartialEq, Eq, Default)]
pub struct PolarisUnmapBlockMappingsArg {
    pub block_id: u64,
    pub flags: u32,
    pub unmapped_count: u32,
    pub _reserved: [u64; 4],
}

/// Moves a block to host memory.
#[derive(Clone, Copy, Debug, PartialEq, Eq, Default)]
pub struct PolarisSpillBlockArg {
    pub block_id: u64,
    pub flags: u32,
    pub unmapped_count: u32,
    pub decision_id: u64,
    pub _reserved: [u64; 3],
}

/// Asks for the physical layout of a block.
#[derive(Clone, Copy, Debug, PartialEq, Eq, Default)]
pub struct PolarisProbeRmPhysArg {
    pub block_id: u64,
    pub offset: u64,
    pub length: u64,
    pub page_size: u64,
    pub phys_addr_count: u64,
    pub first_phys_addr: u64,
    pub last_phys_addr: u64,
    pub flags: u64,
    pub _reserved: [u64; 4],
}

/// Asks for a pattern test of a block.
#[derive(Clone, Copy, Debug, PartialEq, Eq, Default)]
pub struct PolarisProbeRmCopyArg {
    pub block_id: u64,
    pub offset: u64,
    pub length: u64,
    pub pattern_seed: u64,
    pub page_size: u64,
    pub phys_addr_count: u64,
    pub first_phys_addr: u64,
    pub last_phys_addr: u64,
    pub flags: u64,
    pub bytes_checked: u64,
    pub first_mismatch_offset: u64,
    pub expected_byte: u64,
    pub actual_byte: u64,
    pub _reserved: [u64; 4],
}

/// Copies between a block and host memory.
#[derive(Clone, Copy, Debug, PartialEq, Eq, Default)]
pub struct PolarisRmCopyArg {
    pub block_id: u64,
    pub offset: u64,
    pub length: u64,
    pub user_cpu_addr: u64,
    pub direction: u32,
    pub _pad: u32,
    // Optional explicit memory. When zero, the copy works on the memory that
    // the block is registered with.
    pub rm_control_fd: i32,
    pub rm_h_client: u32,
    pub rm_h_memory: u32,
    pub _pad2: u32,
    pub page_size: u64,
    pub phys_addr_count: u64,
    pub first_phys_addr: u64,
    pub last_phys_addr: u64,
    pub flags: u64,
    pub bytes_copied: u64,
    pub _reserved: [u64; 2],
}

/// Opens a session.
#[derive(Clone, Copy, Debug, PartialEq, Eq, Default)]
pub struct PolarisSessionCreateArg {
    pub session_id: u64,
    pub home_gpu: u32,
    pub beam_width: u32,
    pub gpu_vas_bytes: u64,
    pub bytes_per_token: u64,
    pub priority: u32,
    pub _reserved: u32,
    pub _reserved2: [u64; 2],
}

/// Closes a session.
#[derive(Clone, Copy, Debug, PartialEq, Eq, Default)]
pub struct PolarisSessionDestroyArg {
    pub session_id: u64,
    pub _reserved: [u64; 4],
}

/// Asks for what a session holds.
#[derive(Clone, Copy, Debug, PartialEq, Eq, Default)]
pub struct PolarisSessionGetStatsArg {
    pub session_id: u64,
    pub home_gpu: u32,
    pub beam_width: u32,
    pub num_blocks: u32,
    pub _reserved: u32,
    pub total_bytes: u64,
    pub _reserved2: [u64; 2],
}

/// Opens a session that shares the blocks of another.
#[derive(Clone, Copy, Debug, PartialEq, Eq, Default)]
pub struct PolarisSessionBranchArg {
    pub parent_session_id: u64,
    pub child_session_id: u64,
    pub _reserved: [u64; 4],
}

/// Reserves tokens of a session.
#[derive(Clone, Copy, Debug, PartialEq, Eq, Default)]
pub struct PolarisBlockReserveArg {
    pub session_id: u64,
    pub token_start: u32,
    pub token_count: u32,
    pub phase: u32,
    pub flags: u32,
    pub block_id: u64,
    pub gpu_vaddr: u64,
    pub _reserved: [u64; 3],
}

/// Gives reserved tokens back.
#[derive(Clone, Copy, Debug, PartialEq, Eq, Default)]
pub struct PolarisBlockReleaseArg {
    pub session_id: u64,
    pub token_start: u32,
    pub token_count: u32,
    pub flags: u32,
    pub _reserved: u32,
    pub _reserved2: [u64; 4],
}

/// Notes that tokens were used.
#[derive(Clone, Copy, Debug, PartialEq, Eq, Default)]
pub struct PolarisBlockTouchArg {
    pub session_id: u64,
    pub token_start: u64,
    pub token_count: u64,
    pub _reserved: [u64; 4],
}

/// Asks for the state of a block.
#[derive(Clone, Copy, Debug, PartialEq, Eq, Default)]
pub struct PolarisBlockGetStateArg {
    pub session_id: u64,
    pub token_start: u32,
    pub token_count: u32,
    pub block_id: u64,
    pub state: u32,
    pub refcount: u64,
    pub gpu_vaddr: u64,
    pub _reserved: [u64; 2],
}

/// One thing that the executor is asked to do.
#[derive(Clone, Copy, Debug, PartialEq, Eq, Default)]
pub struct PolarisDecision {
    pub decision_id: u64,
    pub fault_id: u64,
    pub generation: u64,
    pub op: u32,
    pub gpu_id: u32,
    pub block_id: u64,
    pub session_id: u64,
    pub src_handle: u64,
    pub dst_handle: u64,
    pub src_vaddr: u64,
    pub dst_vaddr: u64,
    pub size_bytes: u64,
    pub cpu_addr: u64,
    pub access_flags: u32,
    pub timeout_ms: u32,
    // The first word is the source block of a copy-on-write break when the
    // second word holds POLARIS_DECISION_FLAG_SOURCE_BLOCK_ID_VALID.
    pub _reserved: [u64; 4],
}

/// A batch of decisions.
#[derive(Clone, Copy, Debug, PartialEq, Eq, Default)]
pub struct PolarisGetDecisionArg {
    pub count: u32,
    pub _reserved: u32,
    pub decisions: [PolarisDecision; 16],
}

/// What became of a decision.
#[derive(Clone, Copy, Debug, PartialEq, Eq, Default)]
pub struct PolarisCompleteOperationArg {
    pub decision_id: u64,
    pub generation: u64,
    pub result: i32,
    // All zero when the operation produced a plain memory handle only.
    pub rm_control_fd: i32,
    pub output_handle: u64,
    pub output_cpu_addr: u64,
    pub rm_h_client: u32,
    pub rm_h_memory: u32,
    pub rm_backing_length: u64,
}

/// Totals over the whole device.
#[derive(Clone, Copy, Debug, PartialEq, Eq, Default)]
pub struct PolarisGetGlobalStatsArg {
    pub total_gpus: u32,
    pub total_sessions: u32,
    pub total_blocks: u32,
    pub blocks_resident: u32,
    pub blocks_offloaded: u32,
    pub blocks_evicted: u32,
    pub shared_gpu_bytes: u64,
    pub private_gpu_bytes: u64,
    pub cow_break_count: u64,
    pub cow_copy_bytes: u64,
    pub memory_saved_vs_naive: u64,
    pub total_gpu_bytes: u64,
    pub used_gpu_bytes: u64,
    pub cpu_pool_total: u64,
    pub cpu_pool_used: u64,
    pub eviction_policy: u32,
    pub _policy_pad: u32,
    pub offload_count: u64,
    pub reload_count: u64,
    pub total_evictions: u64,
}

/// Chooses the eviction policy.
#[derive(Clone, Copy, Debug, PartialEq, Eq, Default)]
pub struct PolarisSetPolicyArg {
    pub policy: u32,
    pub _reserved: u32,
    pub _reserved2: [u64; 2],
}

/// Describes the tokens that a session is working on.
#[derive(Clone, Copy, Debug, PartialEq, Eq, Default)]
pub struct PolarisKvActiveWindowArg {
    pub session_id: u64,
    pub phase: u32,
    pub flags: u32,
    pub read_start_token: u64,
    pub read_token_count: u64,
    pub write_start_token: u64,
    pub write_token_count: u64,
    pub epoch: u64,
    pub _reserved: [u64; 4],
}

/// The open sessions.
#[derive(Clone, Copy, Debug, PartialEq, Eq)]
pub struct PolarisListSessionsArg {
    pub count: u32,
    pub _reserved: u32,
    pub session_ids: [u64; 64],
}

impl Default for PolarisListSessionsArg {
    fn default() -> (r: PolarisListSessionsArg)
        ensures
            r.count == 0,
            r._reserved == 0,
            forall|i: int| 0 <= i < 64 ==> #[trigger] r.session_ids@[i] == 0,
    {
        PolarisListSessionsArg { count: 0, _reserved: 0, session_ids: [0u64; 64] }
    }
}

} // verus!
