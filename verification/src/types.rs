//! What the device keeps: blocks, sessions, GPUs, address spaces, mappings and
//! faults.

use crate::abi::{
    PolarisBlockState, PolarisPhase, POLARIS_DECISION_FLAG_SOURCE_BLOCK_ID_VALID,
};
use crate::num::sat_add;
use vstd::prelude::*;

verus! {

/// Maximum retries before a block is evicted.
pub const POLARIS_MAX_RETRIES: u32 = 3;

/// Maximum number of decisions that can be queued. When the queue reaches this
/// limit, requests that would add to it are refused: the executor is stuck or
/// gone.
pub const POLARIS_MAX_PENDING_DECISIONS: usize = 1024;

/// Flags attached to a block.
#[derive(Clone, Copy, PartialEq, Eq, Structural, Debug)]
pub struct PolarisBlockFlags {
    /// The block is shared copy-on-write across sessions.
    pub shared: bool,
}

/// One block of KV cache, the GPU equivalent of a physical page.
#[derive(Clone, Copy, PartialEq, Eq, Structural, Debug)]
pub struct PolarisBlock {
    pub block_id: u64,
    /// The session that reserved the block.
    pub session_id: u64,
    pub token_start: u32,
    pub token_count: u32,
    pub home_gpu: u32,
    pub gpu_vaddr: u64,
    pub gpu_phys_handle: u64,
    pub rm_control_fd: i32,
    pub rm_h_client: u32,
    pub rm_h_memory: u32,
    pub rm_backing_length: u64,
    pub rm_backing_offset: u64,
    pub cpu_buf_addr: u64,
    pub size_bytes: u64,
    /// How many sessions share the block.
    pub refcount: u64,
    pub state: PolarisBlockState,
    pub flags: PolarisBlockFlags,
    pub phase: PolarisPhase,
    pub last_touch_ns: u64,
    pub map_time_ns: u64,
    /// The memory that a copy-on-write break copies from.
    pub cow_src_handle: u64,
    /// The block whose resource-manager memory a copy-on-write break copies from,
    /// or zero.
    pub cow_src_block_id: u64,
    /// The memory of another block that an allocation in flight maps, or zero
    /// where it asks for memory of the block's own.
    pub map_src_handle: u64,
    /// Consecutive failures reported for the block; zero after a success.
    pub retry_count: u32,
    /// The decision in flight for the block, or zero.
    pub pending_decision_id: u64,
    pub pending_fault_id: u64,
    pub pending_generation: u64,
    pub fault_timeout_ms: u32,
    /// The fault whose handler waits for the block, or zero.
    pub waiter: u64,
}

impl PolarisBlock {
    /// The block covers the address.
    pub open spec fn covers(self, addr: u64) -> bool {
        self.gpu_vaddr <= addr < sat_add(self.gpu_vaddr, self.size_bytes)
    }

    /// One past the last token of the block.
    pub open spec fn token_end(self) -> int {
        self.token_start + self.token_count
    }

    /// The block holds a token of `start..end`.
    pub open spec fn overlaps_tokens(self, start: int, end: int) -> bool {
        start < self.token_end() && end > self.token_start
    }

    /// Resource-manager memory backs the whole block.
    pub open spec fn rm_backed(self) -> bool {
        self.rm_h_client != 0 && self.rm_h_memory != 0 && self.rm_backing_length >= self.size_bytes
    }

    /// The executor holds memory for the block that has to be given back.
    pub open spec fn needs_free(self) -> bool {
        match self.state {
            PolarisBlockState::Resident => self.gpu_phys_handle != 0 || self.rm_backed(),
            PolarisBlockState::CpuOffloaded => self.cpu_buf_addr != 0,
            _ => false,
        }
    }

    /// What a decision to make a private copy says of its source besides a handle:
    /// the block, where the resource manager's memory backs it.
    pub open spec fn cow_source(self) -> [u64; 4] {
        if self.cow_src_block_id != 0 {
            [
                self.cow_src_block_id,
                POLARIS_DECISION_FLAG_SOURCE_BLOCK_ID_VALID,
                0u64,
                0u64,
            ]
        } else {
            [0u64, 0u64, 0u64, 0u64]
        }
    }

    /// The block without resource-manager memory.
    pub open spec fn without_rm_backing(self) -> PolarisBlock {
        PolarisBlock {
            rm_control_fd: 0,
            rm_h_client: 0,
            rm_h_memory: 0,
            rm_backing_length: 0,
            rm_backing_offset: 0,
            ..self
        }
    }

    /// The block with one reference less.
    pub open spec fn with_reference_dropped(self) -> PolarisBlock {
        let refcount = (self.refcount - 1) as u64;
        PolarisBlock {
            refcount,
            flags: if refcount == 1 {
                PolarisBlockFlags { shared: false }
            } else {
                self.flags
            },
            ..self
        }
    }

    /// Whether the block covers the address.
    pub fn covers_address(&self, addr: u64) -> (r: bool)
        ensures
            r == self.covers(addr),
    {
        addr >= self.gpu_vaddr && addr < self.gpu_vaddr.saturating_add(self.size_bytes)
    }

    /// Whether the block holds a token of `start..end`.
    pub fn has_tokens(&self, start: u64, end: u64) -> (r: bool)
        ensures
            r == self.overlaps_tokens(start as int, end as int),
    {
        let b_start: u64 = self.token_start as u64;
        let b_end: u64 = b_start + self.token_count as u64;
        start < b_end && end > b_start
    }

    /// Whether resource-manager memory backs the whole block.
    pub fn has_rm_backing(&self) -> (r: bool)
        ensures
            r == self.rm_backed(),
    {
        self.rm_h_client != 0 && self.rm_h_memory != 0 && self.rm_backing_length >= self.size_bytes
    }

    /// Whether the executor holds memory for the block that has to be given
    /// back.
    pub fn needs_free_decision(&self) -> (r: bool)
        ensures
            r == self.needs_free(),
    {
        match self.state {
            PolarisBlockState::Resident => self.gpu_phys_handle != 0 || self.has_rm_backing(),
            PolarisBlockState::CpuOffloaded => self.cpu_buf_addr != 0,
            _ => false,
        }
    }

    /// What a decision to make a private copy says of its source besides a handle.
    pub fn cow_source_fields(&self) -> (r: [u64; 4])
        ensures
            r == self.cow_source(),
    {
        if self.cow_src_block_id != 0 {
            [
                self.cow_src_block_id,
                POLARIS_DECISION_FLAG_SOURCE_BLOCK_ID_VALID,
                0u64,
                0u64,
            ]
        } else {
            [0u64, 0u64, 0u64, 0u64]
        }
    }

    /// Forget the resource-manager memory of the block.
    pub fn clear_rm_backing(&mut self)
        ensures
            *final(self) == old(self).without_rm_backing(),
    {
        self.rm_control_fd = 0;
        self.rm_h_client = 0;
        self.rm_h_memory = 0;
        self.rm_backing_length = 0;
        self.rm_backing_offset = 0;
    }

    /// Drop one of the references to a shared block.
    pub fn drop_reference(&mut self)
        requires
            old(self).refcount > 1,
        ensures
            *final(self) == old(self).with_reference_dropped(),
    {
        self.refcount = self.refcount - 1;
        if self.refcount == 1 {
            self.flags = PolarisBlockFlags { shared: false };
        }
    }
}

/// One inference request.
#[derive(Debug)]
pub struct PolarisSession {
    pub session_id: u64,
    pub home_gpu: u32,
    pub gpu_vas_base: u64,
    pub gpu_vas_size: u64,
    pub beam_width: u32,
    pub bytes_per_token: u64,
    pub parent_session_id: u64,
    pub priority: u32,
    pub active_read_start_token: u64,
    pub active_read_token_count: u64,
    pub active_write_start_token: u64,
    pub active_write_token_count: u64,
    /// The blocks of the session, its own and shared ones, in token order.
    pub block_ids: Vec<u64>,
}

/// A session as a value.
#[verifier::ext_equal]
pub struct SessionView {
    pub session_id: u64,
    pub home_gpu: u32,
    pub gpu_vas_base: u64,
    pub gpu_vas_size: u64,
    pub beam_width: u32,
    pub bytes_per_token: u64,
    pub parent_session_id: u64,
    pub priority: u32,
    pub active_read_start_token: u64,
    pub active_read_token_count: u64,
    pub active_write_start_token: u64,
    pub active_write_token_count: u64,
    pub block_ids: Seq<u64>,
}

impl View for PolarisSession {
    type V = SessionView;

    open spec fn view(&self) -> SessionView {
        SessionView {
            session_id: self.session_id,
            home_gpu: self.home_gpu,
            gpu_vas_base: self.gpu_vas_base,
            gpu_vas_size: self.gpu_vas_size,
            beam_width: self.beam_width,
            bytes_per_token: self.bytes_per_token,
            parent_session_id: self.parent_session_id,
            priority: self.priority,
            active_read_start_token: self.active_read_start_token,
            active_read_token_count: self.active_read_token_count,
            active_write_start_token: self.active_write_start_token,
            active_write_token_count: self.active_write_token_count,
            block_ids: self.block_ids@,
        }
    }
}

/// The values of a list of sessions.
pub open spec fn session_views(s: Seq<PolarisSession>) -> Seq<SessionView> {
    Seq::new(s.len(), |i: int| s[i]@)
}

/// A registered GPU.
#[derive(Clone, Copy, PartialEq, Eq, Structural, Debug)]
pub struct PolarisGpu {
    pub gpu_id: u32,
    pub total_bytes: u64,
    pub used_bytes: u64,
    pub budget_bytes: u64,
    pub pressure_score: u64,
    pub cpu_pool_total_bytes: u64,
    pub cpu_pool_used_bytes: u64,
    pub va_range_id: u64,
    pub va_range_base: u64,
    pub va_range_length: u64,
    pub va_block_size: u64,
    pub va_range_flags: u32,
    pub va_range_registered: bool,
    pub healthy: bool,
    pub next_va_offset: u64,
}

/// A fault-capable address space of a worker.
#[derive(Clone, Copy, PartialEq, Eq, Structural, Debug)]
pub struct PolarisVaSpace {
    pub gpu_id: u32,
    pub pid: i32,
    pub rm_client_token: u64,
    pub va_space_token: u64,
    pub managed_base: u64,
    pub managed_length: u64,
}

/// Memory that is mapped at a fixed place of an address space on a fault.
#[derive(Clone, Copy, PartialEq, Eq, Structural, Debug)]
pub struct PolarisStaticBlock {
    pub gpu_id: u32,
    pub rm_client_token: u64,
    pub va_space_token: u64,
    pub base: u64,
    pub length: u64,
    pub offset: u64,
    pub rm_control_fd: i32,
    pub h_client: u32,
    pub h_memory: u32,
}

/// Where in an address space a block appears.
#[derive(Clone, Copy, PartialEq, Eq, Structural, Debug)]
pub struct PolarisBlockMapping {
    pub block_id: u64,
    pub gpu_id: u32,
    pub rm_client_token: u64,
    pub va_space_token: u64,
    pub base: u64,
    pub length: u64,
    /// The address space in which a fault last mapped the block, or zero once it
    /// is unmapped.
    pub last_gpu_va_space_ptr: u64,
    /// The address space in which a fault last mapped the block, or zero. It
    /// outlives the mapping: the memory of a block that is moved away or comes
    /// back is copied through it.
    pub copy_gpu_va_space_ptr: u64,
}

/// A fault that waits for the executor, or waited for it.
#[derive(Clone, Copy, PartialEq, Eq, Structural, Debug)]
pub struct PolarisFault {
    pub fault_id: u64,
    pub generation: u64,
    pub gpu_id: u32,
    pub fault_address: u64,
    pub block_id: u64,
    pub access_type: u32,
    pub state: u32,
    pub enqueue_ns: u64,
    pub deadline_ns: u64,
    pub resolved_ns: u64,
}

/// What to map, and where, to serve a fault.
#[derive(Clone, Copy, PartialEq, Eq, Structural, Debug)]
pub struct PolarisFaultMapping {
    pub base: u64,
    pub length: u64,
    pub offset: u64,
    pub rm_control_fd: i32,
    pub h_client: u32,
    pub h_memory: u32,
}

/// An observed mapping that is to be taken away.
#[derive(Clone, Copy, PartialEq, Eq, Structural, Debug)]
pub struct PolarisMappingUnmap {
    pub block_id: u64,
    pub gpu_id: u32,
    pub rm_client_token: u64,
    pub va_space_token: u64,
    pub gpu_va_space_ptr: u64,
    pub base: u64,
    pub length: u64,
}

/// The memory of a block, as the copy and probe helpers address it.
#[derive(Clone, Copy, PartialEq, Eq, Structural, Debug)]
pub struct PolarisRmPhysProbeTarget {
    pub block_id: u64,
    pub gpu_id: u32,
    pub gpu_va_space_ptr: u64,
    pub rm_control_fd: i32,
    pub h_client: u32,
    pub h_memory: u32,
    pub length: u64,
}

/// Resource-manager memory that a completed operation produced.
#[derive(Clone, Copy, PartialEq, Eq, Structural, Debug)]
pub struct PolarisCompletedRmBacking {
    pub rm_control_fd: i32,
    pub h_client: u32,
    pub h_memory: u32,
    pub length: u64,
}

/// A slot of the lookup table of address spaces; free when its token is zero.
#[derive(Clone, Copy, PartialEq, Eq, Structural, Debug)]
pub struct PolarisFastVaSpaceSlot {
    pub gpu_id: u32,
    pub rm_client_token: u64,
    pub va_space_token: u64,
    pub managed_base: u64,
    pub managed_length: u64,
}

/// A slot of the lookup table of static blocks; free when its token is zero.
#[derive(Clone, Copy, PartialEq, Eq, Structural, Debug)]
pub struct PolarisFastStaticBlockSlot {
    pub gpu_id: u32,
    pub rm_client_token: u64,
    pub rm_control_fd: i32,
    pub h_client: u32,
    pub h_memory: u32,
    pub va_space_token: u64,
    pub base: u64,
    pub length: u64,
    pub offset: u64,
    pub last_gpu_va_space_ptr: u64,
}

/// Counters and last values of the fault hook.
#[derive(Clone, Copy, PartialEq, Eq, Structural, Debug)]
pub struct UvmTelemetry {
    pub hook_calls: u64,
    pub fast_matches: u64,
    pub fast_misses: u64,
    pub unserviceable: u64,
    pub handled: u64,
    pub errors: u64,
    pub last_gpu_id: u32,
    pub last_rm_client_token: u64,
    pub last_va_space_token: u64,
    pub last_gpu_va_space_ptr: u64,
    pub last_fault_address: u64,
    pub last_access_type: u32,
    pub last_map_ret: i32,
    pub last_ensure_ret: i32,
    pub last_result: i32,
}

} // verus!
