//! The fault hook: what to do about a replayable GPU fault, step by step. The
//! caller maps, makes ranges and waits; each answer leads to the next step.

use crate::abi::PolarisBlockState;
use crate::errno::EFAULT;
use crate::fault::{FaultStep, GpuFault};
use crate::num::sat_add;
use crate::seqs::{any, find, first_index, lemma_first_index};
use crate::state::{PolarisInner, PolarisView};
use crate::types::{
    PolarisBlock, PolarisBlockMapping, PolarisFastStaticBlockSlot, PolarisFastVaSpaceSlot,
    PolarisFaultMapping, UvmTelemetry,
};
use vstd::prelude::*;

verus! {

pub const UVM_POLARIS_FAULT_NOT_MINE: i32 = 0;

pub const UVM_POLARIS_FAULT_HANDLED: i32 = 1;

pub const UVM_POLARIS_FAULT_ERROR: i32 = -1;

/// A fault on its way through the hook.
#[derive(Clone, Copy, PartialEq, Eq, Structural, Debug)]
pub struct HookRun {
    pub fault: GpuFault,
    /// The address space that the fault came from, as the mapper knows it.
    pub gpu_va_space_ptr: u64,
    /// What is to be mapped.
    pub mapping: PolarisFaultMapping,
    /// The slot of the static block that is to be mapped.
    pub static_slot: Option<usize>,
    /// Whether the range was made and the mapping is tried once more.
    pub retried: bool,
}

/// What to do next about a fault.
#[derive(Clone, Copy, PartialEq, Eq, Structural, Debug)]
pub enum HookStep {
    /// Nothing: this is the answer to the fault.
    Done(i32),
    /// Map what the run says, then call `hook_mapped`.
    Install(HookRun),
    /// Make the range of what is to be mapped, then call `hook_ensured`.
    Ensure(HookRun),
    /// Resolve the fault, then call `hook_resolved`.
    Resolve(HookRun),
}

// ─── Looking up ─────────────────────────────────────────────────────────────

/// Slots of address spaces whose window holds the fault.
pub open spec fn slot_serves(f: GpuFault) -> spec_fn(PolarisFastVaSpaceSlot) -> bool {
    |s: PolarisFastVaSpaceSlot|
        {
            &&& s.va_space_token != 0
            &&& s.va_space_token == f.va_space_token
            &&& s.gpu_id == f.gpu_id
            &&& s.rm_client_token == f.rm_client_token
            &&& s.managed_base <= f.fault_address < sat_add(s.managed_base, s.managed_length)
        }
}

/// Slots of static blocks that hold the fault.
pub open spec fn static_slot_serves(f: GpuFault) -> spec_fn(PolarisFastStaticBlockSlot) -> bool {
    |s: PolarisFastStaticBlockSlot|
        {
            &&& s.va_space_token != 0
            &&& s.va_space_token == f.va_space_token
            &&& s.gpu_id == f.gpu_id
            &&& s.rm_client_token == f.rm_client_token
            &&& s.base <= f.fault_address < sat_add(s.base, s.length)
        }
}

/// The mapping of a static block.
pub open spec fn static_mapping(s: PolarisFastStaticBlockSlot) -> PolarisFaultMapping {
    PolarisFaultMapping {
        base: s.base,
        length: s.length,
        offset: s.offset,
        rm_control_fd: s.rm_control_fd,
        h_client: s.h_client,
        h_memory: s.h_memory,
    }
}

/// The mapping holds the fault's address.
pub open spec fn mapping_holds(m: PolarisBlockMapping, gpu_id: u32, addr: u64) -> bool {
    m.gpu_id == gpu_id && m.base <= addr < sat_add(m.base, m.length)
}

/// The mapping holds the fault, in the address space that it came from.
pub open spec fn mapping_holds_fault(m: PolarisBlockMapping, f: GpuFault) -> bool {
    mapping_holds(m, f.gpu_id, f.fault_address) && m.rm_client_token == f.rm_client_token
        && m.va_space_token == f.va_space_token
}

/// The block's memory can be mapped where the mapping says.
pub open spec fn mappable(b: PolarisBlock, m: PolarisBlockMapping, gpu_id: u32) -> bool {
    b.home_gpu == gpu_id && b.rm_h_memory != 0 && b.rm_h_client != 0 && b.rm_backing_length
        >= m.length
}

/// What to map for a block at a place.
pub open spec fn block_mapping(b: PolarisBlock, m: PolarisBlockMapping) -> PolarisFaultMapping {
    PolarisFaultMapping {
        base: m.base,
        length: m.length,
        offset: b.rm_backing_offset,
        rm_control_fd: b.rm_control_fd,
        h_client: b.rm_h_client,
        h_memory: b.rm_h_memory,
    }
}

/// Mappings that hold the fault and settle the search for one: the block is
/// gone, or its memory can be mapped.
pub open spec fn settles(v: PolarisView, f: GpuFault) -> spec_fn(PolarisBlockMapping) -> bool {
    |m: PolarisBlockMapping|
        mapping_holds_fault(m, f) && match v.find_block(m.block_id) {
            None => true,
            Some(i) => mappable(v.blocks[i], m, f.gpu_id),
        }
}

/// What to map for a fault: the first block at the address whose memory can be
/// mapped, unless a mapping of a block that is gone comes before it.
pub open spec fn logical_mapping(v: PolarisView, f: GpuFault) -> Option<PolarisFaultMapping> {
    match first_index(v.block_mappings, settles(v, f)) {
        None => None,
        Some(k) => {
            let m = v.block_mappings[k];
            match v.find_block(m.block_id) {
                None => None,
                Some(i) => Some(block_mapping(v.blocks[i], m)),
            }
        },
    }
}

/// Blocks with an id that can be made resident.
pub open spec fn can_become_resident(id: u64) -> spec_fn(PolarisBlock) -> bool {
    |b: PolarisBlock|
        b.block_id == id && (b.state is Unmapped || b.state is CpuOffloaded || b.state is CowPending)
}

/// Mappings that hold the fault, of a block that can be made resident.
pub open spec fn materializable(v: PolarisView, f: GpuFault) -> spec_fn(PolarisBlockMapping) -> bool {
    |m: PolarisBlockMapping|
        mapping_holds_fault(m, f) && any(v.blocks, can_become_resident(m.block_id))
}

/// An executor can make a block at the address resident.
pub open spec fn can_materialize(v: PolarisView, f: GpuFault) -> bool {
    v.daemon_attached != 0 && any(v.block_mappings, materializable(v, f))
}

// ─── Steps ──────────────────────────────────────────────────────────────────

/// The telemetry after a fault is reported.
pub open spec fn reported(t: UvmTelemetry, f: GpuFault, ptr: u64) -> UvmTelemetry {
    UvmTelemetry {
        hook_calls: t.hook_calls.wrapping_add(1),
        last_gpu_id: f.gpu_id,
        last_rm_client_token: f.rm_client_token,
        last_va_space_token: f.va_space_token,
        last_gpu_va_space_ptr: ptr,
        last_fault_address: f.fault_address,
        last_access_type: f.access_type,
        ..t
    }
}

/// The state with other telemetry.
pub open spec fn with_uvm(v: PolarisView, t: UvmTelemetry) -> PolarisView {
    PolarisView { uvm: t, ..v }
}

/// The answer that the fault is not served here, for want of something to map.
pub open spec fn unserviceable(v: PolarisView) -> (HookStep, PolarisView) {
    (
        HookStep::Done(UVM_POLARIS_FAULT_NOT_MINE),
        with_uvm(
            v,
            UvmTelemetry {
                unserviceable: v.uvm.unserviceable.wrapping_add(1),
                last_result: UVM_POLARIS_FAULT_NOT_MINE,
                ..v.uvm
            },
        ),
    )
}

/// The answer that serving the fault failed.
pub open spec fn failed(v: PolarisView) -> (HookStep, PolarisView) {
    (
        HookStep::Done(UVM_POLARIS_FAULT_ERROR),
        with_uvm(
            v,
            UvmTelemetry {
                errors: v.uvm.errors.wrapping_add(1),
                last_result: UVM_POLARIS_FAULT_ERROR,
                ..v.uvm
            },
        ),
    )
}

/// A run that maps something.
pub open spec fn run_of(
    f: GpuFault,
    ptr: u64,
    mapping: PolarisFaultMapping,
    static_slot: Option<usize>,
) -> HookRun {
    HookRun { fault: f, gpu_va_space_ptr: ptr, mapping, static_slot, retried: false }
}

/// Nothing to map.
pub open spec fn no_mapping() -> PolarisFaultMapping {
    PolarisFaultMapping {
        base: 0,
        length: 0,
        offset: 0,
        rm_control_fd: 0,
        h_client: 0,
        h_memory: 0,
    }
}

/// What a fault leads to: in a known window, a static block, a block, or the
/// executor. A fault outside every window is left to others.
pub open spec fn hook_begins(v: PolarisView, f: GpuFault, ptr: u64) -> (HookStep, PolarisView) {
    let r = with_uvm(v, reported(v.uvm, f, ptr));
    match first_index(v.fast_va_spaces, slot_serves(f)) {
        None => (
            HookStep::Done(UVM_POLARIS_FAULT_NOT_MINE),
            with_uvm(
                r,
                UvmTelemetry {
                    fast_misses: r.uvm.fast_misses.wrapping_add(1),
                    last_result: UVM_POLARIS_FAULT_NOT_MINE,
                    ..r.uvm
                },
            ),
        ),
        Some(_) => {
            let w = with_uvm(
                r,
                UvmTelemetry { fast_matches: r.uvm.fast_matches.wrapping_add(1), ..r.uvm },
            );
            match first_index(v.fast_static_blocks, static_slot_serves(f)) {
                Some(j) => (
                    HookStep::Install(
                        run_of(
                            f,
                            ptr,
                            static_mapping(v.fast_static_blocks[j]),
                            Some(j as usize),
                        ),
                    ),
                    w,
                ),
                None => match logical_mapping(v, f) {
                    Some(m) => (HookStep::Install(run_of(f, ptr, m, None)), w),
                    None => if can_materialize(v, f) {
                        (HookStep::Resolve(run_of(f, ptr, no_mapping(), None)), w)
                    } else {
                        unserviceable(w)
                    },
                },
            }
        },
    }
}

/// The mappings after a fault was served in an address space.
pub open spec fn noted(ms: Seq<PolarisBlockMapping>, gpu_id: u32, addr: u64, ptr: u64) -> Seq<
    PolarisBlockMapping,
> {
    if ptr == 0 {
        ms
    } else {
        Seq::new(
            ms.len(),
            |i: int|
                if mapping_holds(ms[i], gpu_id, addr) {
                    PolarisBlockMapping {
                        last_gpu_va_space_ptr: ptr,
                        copy_gpu_va_space_ptr: ptr,
                        ..ms[i]
                    }
                } else {
                    ms[i]
                },
        )
    }
}

/// The answer that the fault was served.
pub open spec fn served(v: PolarisView, run: HookRun) -> (HookStep, PolarisView) {
    (
        HookStep::Done(UVM_POLARIS_FAULT_HANDLED),
        PolarisView {
            fast_static_blocks: match run.static_slot {
                Some(j) => v.fast_static_blocks.update(
                    j as int,
                    PolarisFastStaticBlockSlot {
                        last_gpu_va_space_ptr: run.gpu_va_space_ptr,
                        ..v.fast_static_blocks[j as int]
                    },
                ),
                None => v.fast_static_blocks,
            },
            block_mappings: noted(
                v.block_mappings,
                run.fault.gpu_id,
                run.fault.fault_address,
                run.gpu_va_space_ptr,
            ),
            uvm: UvmTelemetry {
                handled: v.uvm.handled.wrapping_add(1),
                last_result: UVM_POLARIS_FAULT_HANDLED,
                ..v.uvm
            },
            ..v
        },
    )
}

/// What the mapper's answer leads to: a bad address is mended once by making
/// the range.
pub open spec fn hook_maps(v: PolarisView, run: HookRun, ret: i32) -> (HookStep, PolarisView) {
    let w = with_uvm(v, UvmTelemetry { last_map_ret: ret, ..v.uvm });
    if ret == 0 {
        served(w, run)
    } else if ret == EFAULT && !run.retried {
        (HookStep::Ensure(run), w)
    } else {
        failed(w)
    }
}

/// What making the range leads to.
pub open spec fn hook_ensures(v: PolarisView, run: HookRun, ret: i32) -> (HookStep, PolarisView) {
    let w = with_uvm(v, UvmTelemetry { last_ensure_ret: ret, ..v.uvm });
    if ret == 0 {
        (HookStep::Install(HookRun { retried: true, ..run }), w)
    } else {
        failed(w)
    }
}

/// How resolving a fault ended.
#[derive(Clone, Copy, PartialEq, Eq, Structural, Debug)]
pub enum Resolution {
    Handled,
    NotMine,
    Failed,
}

/// What resolving the fault leads to.
pub open spec fn hook_resolves(v: PolarisView, run: HookRun, end: Resolution) -> (HookStep, PolarisView) {
    match end {
        Resolution::Handled => match logical_mapping(v, run.fault) {
            Some(m) => (HookStep::Install(run_of(run.fault, run.gpu_va_space_ptr, m, None)), v),
            None => unserviceable(v),
        },
        Resolution::NotMine => (
            HookStep::Done(UVM_POLARIS_FAULT_NOT_MINE),
            with_uvm(v, UvmTelemetry { last_result: UVM_POLARIS_FAULT_NOT_MINE, ..v.uvm }),
        ),
        Resolution::Failed => failed(v),
    }
}

// ─── Laws ───────────────────────────────────────────────────────────────────

/// A fault outside every known window is not this hook's, and only the telemetry
/// shows that it was seen.
pub proof fn law_unknown_fault_is_not_mine(v: PolarisView, f: GpuFault, ptr: u64)
    requires
        forall|i: int|
            0 <= i < v.fast_va_spaces.len() ==> !slot_serves(f)(#[trigger] v.fast_va_spaces[i]),
    ensures
        hook_begins(v, f, ptr).0 == HookStep::Done(UVM_POLARIS_FAULT_NOT_MINE),
        ({
            let w = hook_begins(v, f, ptr).1;
            w == PolarisView { uvm: w.uvm, ..v }
        }),
{
    lemma_first_index(v.fast_va_spaces, slot_serves(f));
}

/// A mapping is tried at most twice.
pub proof fn law_mapping_is_retried_once(v: PolarisView, run: HookRun, ret: i32)
    requires
        run.retried,
    ensures
        hook_maps(v, run, ret).0 is Done,
{
}

/// What the hook maps for a block holds the fault's address.
pub proof fn law_mapped_range_holds_fault(v: PolarisView, f: GpuFault, ptr: u64)
    ensures
        hook_begins(v, f, ptr).0 matches HookStep::Install(run) ==> run.mapping.base <= f.fault_address
            < sat_add(run.mapping.base, run.mapping.length),
{
    lemma_first_index(v.fast_static_blocks, static_slot_serves(f));
    lemma_first_index(v.block_mappings, settles(v, f));
}

// ─── Handling ───────────────────────────────────────────────────────────────

impl PolarisInner {
    /// What to map for a fault from a known address space.
    pub fn find_logical_fault_mapping(&self, f: GpuFault) -> (r: Option<PolarisFaultMapping>)
        ensures
            r == logical_mapping(self@, f),
    {
        let ghost p = settles(self@, f);
        let mut k: usize = 0;
        while k < self.block_mappings.len()
            invariant
                0 <= k <= self@.block_mappings.len(),
                p == settles(self@, f),
                forall|j: int| 0 <= j < k ==> !p(#[trigger] self@.block_mappings[j]),
            decreases self@.block_mappings.len() - k,
        {
            let m = self.block_mappings[k];
            assert(m == self@.block_mappings[k as int]);
            if m.gpu_id == f.gpu_id && m.rm_client_token == f.rm_client_token && m.va_space_token
                == f.va_space_token && f.fault_address >= m.base && f.fault_address
                < m.base.saturating_add(m.length) {
                match self.find_block(m.block_id) {
                    None => {
                        proof {
                            crate::seqs::lemma_first_index_is(self@.block_mappings, p, k as int);
                        }
                        return None;
                    },
                    Some(i) => {
                        let b = self.blocks[i];
                        if b.home_gpu == f.gpu_id && b.rm_h_memory != 0 && b.rm_h_client != 0
                            && b.rm_backing_length >= m.length {
                            proof {
                                crate::seqs::lemma_first_index_is(
                                    self@.block_mappings,
                                    p,
                                    k as int,
                                );
                            }
                            return Some(
                                PolarisFaultMapping {
                                    base: m.base,
                                    length: m.length,
                                    offset: b.rm_backing_offset,
                                    rm_control_fd: b.rm_control_fd,
                                    h_client: b.rm_h_client,
                                    h_memory: b.rm_h_memory,
                                },
                            );
                        }
                    },
                }
            }
            k += 1;
        }
        None
    }

    /// Whether an executor can make a block at the address resident.
    pub fn can_materialize_logical_fault_mapping(&self, f: GpuFault) -> (r: bool)
        ensures
            r == can_materialize(self@, f),
    {
        if self.daemon_attached == 0 {
            return false;
        }
        let ghost p = materializable(self@, f);
        let mut k: usize = 0;
        while k < self.block_mappings.len()
            invariant
                self.daemon_attached != 0,
                0 <= k <= self@.block_mappings.len(),
                p == materializable(self@, f),
                forall|j: int| 0 <= j < k ==> !p(#[trigger] self@.block_mappings[j]),
            decreases self@.block_mappings.len() - k,
        {
            let m = self.block_mappings[k];
            assert(m == self@.block_mappings[k as int]);
            if m.gpu_id == f.gpu_id && m.rm_client_token == f.rm_client_token && m.va_space_token
                == f.va_space_token && f.fault_address >= m.base && f.fault_address
                < m.base.saturating_add(m.length) {
                let id: u64 = m.block_id;
                proof {
                    lemma_first_index(self@.blocks, can_become_resident(id));
                }
                if find(
                    &self.blocks,
                    |b: &PolarisBlock| -> (x: bool)
                        ensures
                            x == can_become_resident(id)(*b)
                        {
                            b.block_id == id && matches!(
                                b.state,
                                PolarisBlockState::Unmapped | PolarisBlockState::CpuOffloaded
                                | PolarisBlockState::CowPending
                            )
                        },
                    Ghost(can_become_resident(id)),
                ).is_some() {
                    assert(p(self@.block_mappings[k as int]));
                    return true;
                }
            }
            k += 1;
        }
        false
    }

    /// Note in which address space a fault was served.
    pub fn note_block_mapping_fault(&mut self, gpu_id: u32, fault_address: u64, gpu_va_space_ptr: u64)
        ensures
            final(self)@ == (PolarisView {
                block_mappings: noted(
                    old(self)@.block_mappings,
                    gpu_id,
                    fault_address,
                    gpu_va_space_ptr,
                ),
                ..old(self)@
            }),
    {
        if gpu_va_space_ptr == 0 {
            return ;
        }
        let ghost v = self@;
        let ghost goal = noted(v.block_mappings, gpu_id, fault_address, gpu_va_space_ptr);
        let mut i: usize = 0;
        while i < self.block_mappings.len()
            invariant
                gpu_va_space_ptr != 0,
                0 <= i <= v.block_mappings.len(),
                goal == noted(v.block_mappings, gpu_id, fault_address, gpu_va_space_ptr),
                self.block_mappings@.len() == v.block_mappings.len(),
                self@ == (PolarisView { block_mappings: self.block_mappings@, ..v }),
                forall|k: int| 0 <= k < i ==> self.block_mappings@[k] == #[trigger] goal[k],
                forall|k: int|
                    i <= k < v.block_mappings.len() ==> self.block_mappings@[k]
                        == #[trigger] v.block_mappings[k],
            decreases v.block_mappings.len() - i,
        {
            let m = self.block_mappings[i];
            assert(m == v.block_mappings[i as int]);
            if m.gpu_id == gpu_id && fault_address >= m.base && fault_address
                < m.base.saturating_add(m.length) {
                self.block_mappings[i].last_gpu_va_space_ptr = gpu_va_space_ptr;
                self.block_mappings[i].copy_gpu_va_space_ptr = gpu_va_space_ptr;
            }
            i += 1;
        }
        assert(self.block_mappings@ =~= goal);
    }

    /// Count a fault that nothing can be mapped for.
    fn hook_unserviceable(&mut self) -> (r: HookStep)
        ensures
            (r, final(self)@) == unserviceable(old(self)@),
    {
        self.uvm.unserviceable = self.uvm.unserviceable.wrapping_add(1);
        self.uvm.last_result = UVM_POLARIS_FAULT_NOT_MINE;
        HookStep::Done(UVM_POLARIS_FAULT_NOT_MINE)
    }

    /// Count a fault that could not be served.
    fn hook_failed(&mut self) -> (r: HookStep)
        ensures
            (r, final(self)@) == failed(old(self)@),
    {
        self.uvm.errors = self.uvm.errors.wrapping_add(1);
        self.uvm.last_result = UVM_POLARIS_FAULT_ERROR;
        HookStep::Done(UVM_POLARIS_FAULT_ERROR)
    }

    /// Take up a replayable fault from the address space `gpu_va_space_ptr`.
    pub fn uvm_handle_gpu_fault(&mut self, f: GpuFault, gpu_va_space_ptr: u64) -> (r: HookStep)
        ensures
            (r, final(self)@) == hook_begins(old(self)@, f, gpu_va_space_ptr),
            r matches HookStep::Install(run) ==> (run.static_slot matches Some(j) ==> j
                < final(self)@.fast_static_blocks.len()),
    {
        self.uvm.hook_calls = self.uvm.hook_calls.wrapping_add(1);
        self.uvm.last_gpu_id = f.gpu_id;
        self.uvm.last_rm_client_token = f.rm_client_token;
        self.uvm.last_va_space_token = f.va_space_token;
        self.uvm.last_gpu_va_space_ptr = gpu_va_space_ptr;
        self.uvm.last_fault_address = f.fault_address;
        self.uvm.last_access_type = f.access_type;
        let ghost v = old(self)@;
        proof {
            lemma_lookups_ignore_telemetry(v, self@.uvm, f);
        }
        let slot = find(
            &self.fast_va_spaces,
            |s: &PolarisFastVaSpaceSlot| -> (x: bool)
                ensures
                    x == slot_serves(f)(*s)
                {
                    s.va_space_token != 0 && s.va_space_token == f.va_space_token && s.gpu_id
                        == f.gpu_id && s.rm_client_token == f.rm_client_token && f.fault_address
                        >= s.managed_base && f.fault_address < s.managed_base.saturating_add(
                        s.managed_length,
                    )
                },
            Ghost(slot_serves(f)),
        );
        if slot.is_none() {
            self.uvm.fast_misses = self.uvm.fast_misses.wrapping_add(1);
            self.uvm.last_result = UVM_POLARIS_FAULT_NOT_MINE;
            return HookStep::Done(UVM_POLARIS_FAULT_NOT_MINE);
        }
        self.uvm.fast_matches = self.uvm.fast_matches.wrapping_add(1);
        proof {
            lemma_lookups_ignore_telemetry(v, self@.uvm, f);
        }
        let block = find(
            &self.fast_static_blocks,
            |s: &PolarisFastStaticBlockSlot| -> (x: bool)
                ensures
                    x == static_slot_serves(f)(*s)
                {
                    s.va_space_token != 0 && s.va_space_token == f.va_space_token && s.gpu_id
                        == f.gpu_id && s.rm_client_token == f.rm_client_token && f.fault_address
                        >= s.base && f.fault_address < s.base.saturating_add(s.length)
                },
            Ghost(static_slot_serves(f)),
        );
        if let Some(j) = block {
            let s = self.fast_static_blocks[j];
            return HookStep::Install(
                HookRun {
                    fault: f,
                    gpu_va_space_ptr,
                    mapping: PolarisFaultMapping {
                        base: s.base,
                        length: s.length,
                        offset: s.offset,
                        rm_control_fd: s.rm_control_fd,
                        h_client: s.h_client,
                        h_memory: s.h_memory,
                    },
                    static_slot: Some(j),
                    retried: false,
                },
            );
        }
        if let Some(mapping) = self.find_logical_fault_mapping(f) {
            return HookStep::Install(
                HookRun {
                    fault: f,
                    gpu_va_space_ptr,
                    mapping,
                    static_slot: None,
                    retried: false,
                },
            );
        }
        if self.can_materialize_logical_fault_mapping(f) {
            return HookStep::Resolve(
                HookRun {
                    fault: f,
                    gpu_va_space_ptr,
                    mapping: PolarisFaultMapping {
                        base: 0,
                        length: 0,
                        offset: 0,
                        rm_control_fd: 0,
                        h_client: 0,
                        h_memory: 0,
                    },
                    static_slot: None,
                    retried: false,
                },
            );
        }
        self.hook_unserviceable()
    }

    /// Take up the mapper's answer.
    pub fn hook_mapped(&mut self, run: HookRun, ret: i32) -> (r: HookStep)
        requires
            run.static_slot matches Some(j) ==> j < old(self)@.fast_static_blocks.len(),
        ensures
            (r, final(self)@) == hook_maps(old(self)@, run, ret),
            final(self)@.fast_static_blocks.len() == old(self)@.fast_static_blocks.len(),
    {
        self.uvm.last_map_ret = ret;
        if ret == 0 {
            if let Some(j) = run.static_slot {
                self.fast_static_blocks[j].last_gpu_va_space_ptr = run.gpu_va_space_ptr;
            }
            self.note_block_mapping_fault(
                run.fault.gpu_id,
                run.fault.fault_address,
                run.gpu_va_space_ptr,
            );
            self.uvm.handled = self.uvm.handled.wrapping_add(1);
            self.uvm.last_result = UVM_POLARIS_FAULT_HANDLED;
            return HookStep::Done(UVM_POLARIS_FAULT_HANDLED);
        }
        if ret == EFAULT && !run.retried {
            return HookStep::Ensure(run);
        }
        self.hook_failed()
    }

    /// Take up the answer to making a range.
    pub fn hook_ensured(&mut self, run: HookRun, ret: i32) -> (r: HookStep)
        ensures
            (r, final(self)@) == hook_ensures(old(self)@, run, ret),
    {
        self.uvm.last_ensure_ret = ret;
        if ret == 0 {
            return HookStep::Install(HookRun { retried: true, ..run });
        }
        self.hook_failed()
    }

    /// Take up how resolving the fault ended.
    pub fn hook_resolved(&mut self, run: HookRun, end: Resolution) -> (r: HookStep)
        ensures
            (r, final(self)@) == hook_resolves(old(self)@, run, end),
    {
        match end {
            Resolution::Handled => match self.find_logical_fault_mapping(run.fault) {
                Some(mapping) => HookStep::Install(
                    HookRun {
                        fault: run.fault,
                        gpu_va_space_ptr: run.gpu_va_space_ptr,
                        mapping,
                        static_slot: None,
                        retried: false,
                    },
                ),
                None => self.hook_unserviceable(),
            },
            Resolution::NotMine => {
                self.uvm.last_result = UVM_POLARIS_FAULT_NOT_MINE;
                HookStep::Done(UVM_POLARIS_FAULT_NOT_MINE)
            },
            Resolution::Failed => self.hook_failed(),
        }
    }
}

/// How resolving a fault ended, from what its two halves returned: the second
/// is none where there was nothing to wait for.
pub open spec fn resolved(begun: Result<FaultStep, i32>, finished: Option<Result<(), i32>>) -> Resolution {
    match begun {
        Err(_) => Resolution::Failed,
        Ok(FaultStep::NotMine) => Resolution::NotMine,
        Ok(FaultStep::Error) => Resolution::Failed,
        Ok(FaultStep::Wait { .. }) => match finished {
            Some(Ok(_)) => Resolution::Handled,
            _ => Resolution::Failed,
        },
    }
}

/// How resolving a fault ended, from what its two halves returned: the second
/// is none where there was nothing to wait for.
pub fn resolution_of(begun: Result<FaultStep, i32>, finished: Option<Result<(), i32>>) -> (r: Resolution)
    ensures
        r == resolved(begun, finished),
{
    match begun {
        Err(_) => Resolution::Failed,
        Ok(step) => match step {
            FaultStep::NotMine => Resolution::NotMine,
            FaultStep::Error => Resolution::Failed,
            FaultStep::Wait { .. } => match finished {
                Some(Ok(_)) => Resolution::Handled,
                _ => Resolution::Failed,
            },
        },
    }
}

/// The lookups do not depend on the telemetry.
proof fn lemma_lookups_ignore_telemetry(v: PolarisView, t: UvmTelemetry, f: GpuFault)
    ensures
        ({
            let w = with_uvm(v, t);
            &&& logical_mapping(w, f) == logical_mapping(v, f)
            &&& can_materialize(w, f) == can_materialize(v, f)
        }),
{
    let w = with_uvm(v, t);
    assert(settles(w, f) =~= settles(v, f));
    assert(materializable(w, f) =~= materializable(v, f));
}

} // verus!
