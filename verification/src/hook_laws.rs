//! What the fault hook is for: a GPU that touches a mapped block gets its memory, or
//! has it brought first.

use crate::fault::{FaultStep, GpuFault};
use crate::hook::{
    can_become_resident, can_materialize, hook_begins, hook_ensures, hook_maps, hook_resolves,
    logical_mapping, mapping_holds_fault, materializable, resolved, settles, slot_serves,
    static_slot_serves, HookRun, HookStep, Resolution,
};
use crate::places::{block_at, law_block_is_found};
use crate::seqs::{first_index, lemma_first_index, lemma_first_index_is};
use crate::state::PolarisView;
use crate::types::{PolarisBlock, PolarisBlockMapping};
use vstd::prelude::*;

verus! {

// ─── In plain terms ─────────────────────────────────────────────────────────

/// A window of the fault's address space is registered, and the address is in it.
pub open spec fn in_a_window(v: PolarisView, f: GpuFault) -> bool {
    exists|i: int|
        #![trigger v.fast_va_spaces[i]]
        {
            &&& 0 <= i < v.fast_va_spaces.len()
            &&& v.fast_va_spaces[i].va_space_token != 0
            &&& v.fast_va_spaces[i].va_space_token == f.va_space_token
            &&& v.fast_va_spaces[i].rm_client_token == f.rm_client_token
            &&& v.fast_va_spaces[i].gpu_id == f.gpu_id
            &&& v.fast_va_spaces[i].managed_base <= f.fault_address
                < v.fast_va_spaces[i].managed_base + v.fast_va_spaces[i].managed_length
        }
}

/// Slot `j` holds static memory at the fault's address, in its address space.
pub open spec fn static_there(v: PolarisView, f: GpuFault, j: int) -> bool {
    &&& 0 <= j < v.fast_static_blocks.len()
    &&& v.fast_static_blocks[j].va_space_token != 0
    &&& v.fast_static_blocks[j].va_space_token == f.va_space_token
    &&& v.fast_static_blocks[j].rm_client_token == f.rm_client_token
    &&& v.fast_static_blocks[j].gpu_id == f.gpu_id
    &&& v.fast_static_blocks[j].base <= f.fault_address < v.fast_static_blocks[j].base
        + v.fast_static_blocks[j].length
}

/// The mapping has the address.
pub open spec fn at_the_address(m: PolarisBlockMapping, gpu_id: u32, addr: u64) -> bool {
    m.gpu_id == gpu_id && m.base <= addr < m.base + m.length
}

/// Entry `k` is a mapping of a block that has the fault's address, in its address
/// space.
pub open spec fn mapped_there(v: PolarisView, f: GpuFault, k: int) -> bool {
    &&& 0 <= k < v.block_mappings.len()
    &&& at_the_address(v.block_mappings[k], f.gpu_id, f.fault_address)
    &&& v.block_mappings[k].rm_client_token == f.rm_client_token
    &&& v.block_mappings[k].va_space_token == f.va_space_token
}

/// The block is on the GPU and has memory for all of the mapping.
pub open spec fn has_memory_for(b: PolarisBlock, m: PolarisBlockMapping, gpu_id: u32) -> bool {
    b.home_gpu == gpu_id && b.rm_h_client != 0 && b.rm_h_memory != 0 && b.rm_backing_length
        >= m.length
}

/// A mapping at the address is of a known block that has no memory for it.
pub open spec fn waits_for_memory(v: PolarisView, f: GpuFault, k: int) -> bool {
    exists|i: int| #[trigger]
        block_at(v, v.block_mappings[k].block_id, i) && !has_memory_for(
            v.blocks[i],
            v.block_mappings[k],
            f.gpu_id,
        )
}

/// The windows, the static memory and the mappings, in the hook's terms and in plain
/// ones.
proof fn lemma_lookups(v: PolarisView, f: GpuFault)
    requires
        f.fault_address < u64::MAX,
    ensures
        first_index(v.fast_va_spaces, slot_serves(f)) is Some <==> in_a_window(v, f),
        forall|j: int|
            0 <= j < v.fast_static_blocks.len() ==> (static_slot_serves(f)(
                #[trigger] v.fast_static_blocks[j],
            ) <==> static_there(v, f, j)),
        forall|k: int|
            0 <= k < v.block_mappings.len() ==> (mapping_holds_fault(
                #[trigger] v.block_mappings[k],
                f,
            ) <==> mapped_there(v, f, k)),
{
    lemma_first_index(v.fast_va_spaces, slot_serves(f));
    if in_a_window(v, f) {
        let i = choose|i: int|
            #![trigger v.fast_va_spaces[i]]
            {
                &&& 0 <= i < v.fast_va_spaces.len()
                &&& v.fast_va_spaces[i].va_space_token != 0
                &&& v.fast_va_spaces[i].va_space_token == f.va_space_token
                &&& v.fast_va_spaces[i].rm_client_token == f.rm_client_token
                &&& v.fast_va_spaces[i].gpu_id == f.gpu_id
                &&& v.fast_va_spaces[i].managed_base <= f.fault_address
                    < v.fast_va_spaces[i].managed_base + v.fast_va_spaces[i].managed_length
            };
        assert(slot_serves(f)(v.fast_va_spaces[i]));
    }
}

/// Where every mapping at the address waits for memory, there is nothing to map.
proof fn lemma_nothing_to_map(v: PolarisView, f: GpuFault)
    requires
        f.fault_address < u64::MAX,
        forall|k: int| #[trigger] mapped_there(v, f, k) ==> waits_for_memory(v, f, k),
    ensures
        logical_mapping(v, f) is None,
{
    lemma_lookups(v, f);
    lemma_first_index(v.block_mappings, settles(v, f));
    if let Some(k) = first_index(v.block_mappings, settles(v, f)) {
        let m = v.block_mappings[k];
        assert(settles(v, f)(m));
        assert(mapping_holds_fault(m, f));
        assert(mapped_there(v, f, k));
        assert(waits_for_memory(v, f, k));
        law_block_is_found(v, m.block_id);
    }
}

// ─── The first step ─────────────────────────────────────────────────────────

/// A fault outside every registered window is left to others; all that changes is that
/// it was counted.
pub proof fn law_faults_outside_the_windows_are_left_alone(v: PolarisView, f: GpuFault, ptr: u64)
    requires
        f.fault_address < u64::MAX,
        !in_a_window(v, f),
    ensures
        ({
            let (step, w) = hook_begins(v, f, ptr);
            &&& step == HookStep::Done(0)
            &&& w == (PolarisView { uvm: w.uvm, ..v })
            &&& w.uvm.hook_calls == v.uvm.hook_calls.wrapping_add(1)
            &&& w.uvm.fast_misses == v.uvm.fast_misses.wrapping_add(1)
            &&& w.uvm.fast_matches == v.uvm.fast_matches
            &&& w.uvm.unserviceable == v.uvm.unserviceable
        }),
{
    lemma_lookups(v, f);
}

/// Every fault that comes in is counted and remembered as it came, whatever becomes of
/// it, and is counted as one that falls into a window or as one that does not.
pub proof fn law_faults_are_remembered(v: PolarisView, f: GpuFault, ptr: u64)
    requires
        f.fault_address < u64::MAX,
    ensures
        ({
            let t = hook_begins(v, f, ptr).1.uvm;
            &&& t.hook_calls == v.uvm.hook_calls.wrapping_add(1)
            &&& t.last_gpu_id == f.gpu_id && t.last_fault_address == f.fault_address
            &&& t.last_rm_client_token == f.rm_client_token && t.last_va_space_token
                == f.va_space_token
            &&& t.last_gpu_va_space_ptr == ptr && t.last_access_type == f.access_type
            &&& in_a_window(v, f) ==> t.fast_matches == v.uvm.fast_matches.wrapping_add(1)
                && t.fast_misses == v.uvm.fast_misses
            &&& t.handled == v.uvm.handled && t.errors == v.uvm.errors
        }),
{
    lemma_lookups(v, f);
}

/// What the helpers returned is remembered, and every answer is counted under what it
/// says: served, or failed.
pub proof fn law_answers_are_remembered(v: PolarisView, run: HookRun, ret: i32)
    requires
        run.static_slot matches Some(j) ==> j < v.fast_static_blocks.len(),
    ensures
        ({
            let (mapped, w) = hook_maps(v, run, ret);
            let (made, x) = hook_ensures(v, run, ret);
            &&& w.uvm.last_map_ret == ret && x.uvm.last_ensure_ret == ret
            &&& ret == 0 ==> mapped == HookStep::Done(1) && w.uvm.handled
                == v.uvm.handled.wrapping_add(1) && w.uvm.errors == v.uvm.errors
                && w.uvm.last_result == 1
            &&& ret != 0 && ret != 14 ==> mapped is Done && w.uvm.errors
                == v.uvm.errors.wrapping_add(1) && w.uvm.handled == v.uvm.handled
                && w.uvm.last_result == -1
            &&& ret == 0 ==> x.uvm.errors == v.uvm.errors
            &&& ret != 0 ==> made is Done && x.uvm.errors == v.uvm.errors.wrapping_add(1)
                && x.uvm.last_result == -1
        }),
{
}

/// A fault was dealt with only where a block was waited for and came; it is left to others
/// only where it is not managed here; everything else is a failure.
pub proof fn law_fault_is_handled_when_the_block_came(
    begun: Result<FaultStep, i32>,
    finished: Option<Result<(), i32>>,
)
    ensures
        resolved(begun, finished) is Handled <==> begun is Ok && begun->Ok_0 is Wait && finished
            is Some && finished->0 is Ok,
        resolved(begun, finished) is NotMine <==> begun is Ok && begun->Ok_0 is NotMine,
{
}

/// Static memory at the address is mapped before anything else: what its slot says,
/// where it says.
pub proof fn law_static_memory_is_mapped(v: PolarisView, f: GpuFault, ptr: u64, j: int)
    requires
        f.fault_address < u64::MAX,
        in_a_window(v, f),
        static_there(v, f, j),
        forall|i: int| 0 <= i < j ==> !#[trigger] static_there(v, f, i),
        j <= usize::MAX,
    ensures
        hook_begins(v, f, ptr).0 matches HookStep::Install(run) && {
            let s = v.fast_static_blocks[j];
            &&& run.fault == f && run.gpu_va_space_ptr == ptr && !run.retried
            &&& run.static_slot == Some(j as usize)
            &&& run.mapping.base == s.base && run.mapping.length == s.length
                && run.mapping.offset == s.offset
            &&& run.mapping.rm_control_fd == s.rm_control_fd && run.mapping.h_client == s.h_client
                && run.mapping.h_memory == s.h_memory
        },
{
    lemma_lookups(v, f);
    let p = static_slot_serves(f);
    assert(p(v.fast_static_blocks[j]));
    assert forall|i: int| 0 <= i < j implies !p(#[trigger] v.fast_static_blocks[i]) by {
        assert(!static_there(v, f, i));
    }
    lemma_first_index_is(v.fast_static_blocks, p, j);
}

/// The memory of a block at the address is mapped: all that the mapping spans, from the
/// memory that the block has. The first mapping at the address whose block has memory
/// counts.
pub proof fn law_memory_that_is_there_is_mapped(
    v: PolarisView,
    f: GpuFault,
    ptr: u64,
    k: int,
    i: int,
)
    requires
        f.fault_address < u64::MAX,
        in_a_window(v, f),
        forall|j: int| !#[trigger] static_there(v, f, j),
        mapped_there(v, f, k),
        block_at(v, v.block_mappings[k].block_id, i),
        has_memory_for(v.blocks[i], v.block_mappings[k], f.gpu_id),
        forall|j: int|
            0 <= j < k && #[trigger] mapped_there(v, f, j) ==> waits_for_memory(v, f, j),
    ensures
        hook_begins(v, f, ptr).0 matches HookStep::Install(run) && {
            let m = v.block_mappings[k];
            let b = v.blocks[i];
            &&& run.fault == f && run.gpu_va_space_ptr == ptr && run.static_slot is None
            &&& run.mapping.base == m.base && run.mapping.length == m.length
            &&& run.mapping.offset == b.rm_backing_offset
            &&& run.mapping.rm_control_fd == b.rm_control_fd && run.mapping.h_client
                == b.rm_h_client && run.mapping.h_memory == b.rm_h_memory
        },
        hook_resolves(
            v,
            HookRun {
                fault: f,
                gpu_va_space_ptr: ptr,
                mapping: crate::hook::no_mapping(),
                static_slot: None,
                retried: false,
            },
            Resolution::Handled,
        ).0 matches HookStep::Install(run) && {
            let m = v.block_mappings[k];
            let b = v.blocks[i];
            &&& run.fault == f && run.gpu_va_space_ptr == ptr
            &&& run.mapping.base == m.base && run.mapping.length == m.length
            &&& run.mapping.rm_control_fd == b.rm_control_fd && run.mapping.h_client
                == b.rm_h_client && run.mapping.h_memory == b.rm_h_memory
        },
{
    lemma_lookups(v, f);
    lemma_first_index(v.fast_static_blocks, static_slot_serves(f));
    if let Some(j) = first_index(v.fast_static_blocks, static_slot_serves(f)) {
        assert(static_there(v, f, j));
    }
    let p = settles(v, f);
    law_block_is_found(v, v.block_mappings[k].block_id);
    assert(mapping_holds_fault(v.block_mappings[k], f));
    assert(p(v.block_mappings[k]));
    assert forall|j: int| 0 <= j < k implies !p(#[trigger] v.block_mappings[j]) by {
        if p(v.block_mappings[j]) {
            assert(mapping_holds_fault(v.block_mappings[j], f));
            assert(mapped_there(v, f, j));
            assert(waits_for_memory(v, f, j));
            law_block_is_found(v, v.block_mappings[j].block_id);
        }
    }
    lemma_first_index_is(v.block_mappings, p, k);
}

/// A block at the address that has no memory there yet, because it never had any, is
/// in host memory or waits for a private copy, is brought: the fault is resolved. It
/// takes an executor.
pub proof fn law_block_without_memory_is_brought(
    v: PolarisView,
    f: GpuFault,
    ptr: u64,
    k: int,
    i: int,
)
    requires
        f.fault_address < u64::MAX,
        in_a_window(v, f),
        forall|j: int| !#[trigger] static_there(v, f, j),
        forall|j: int| #[trigger] mapped_there(v, f, j) ==> waits_for_memory(v, f, j),
        mapped_there(v, f, k),
        0 <= i < v.blocks.len(),
        v.blocks[i].block_id == v.block_mappings[k].block_id,
        v.blocks[i].state is Unmapped || v.blocks[i].state is CpuOffloaded
            || v.blocks[i].state is CowPending,
    ensures
        ({
            let (step, w) = hook_begins(v, f, ptr);
            &&& w == (PolarisView { uvm: w.uvm, ..v })
            &&& v.daemon_attached > 0 ==> (step matches HookStep::Resolve(run) && run.fault == f
                && run.gpu_va_space_ptr == ptr && w.uvm.unserviceable == v.uvm.unserviceable)
            &&& v.daemon_attached == 0 ==> step == HookStep::Done(0) && w.uvm.unserviceable
                == v.uvm.unserviceable.wrapping_add(1)
        }),
{
    lemma_lookups(v, f);
    lemma_first_index(v.fast_static_blocks, static_slot_serves(f));
    if let Some(j) = first_index(v.fast_static_blocks, static_slot_serves(f)) {
        assert(static_there(v, f, j));
    }
    lemma_nothing_to_map(v, f);
    assert(can_become_resident(v.block_mappings[k].block_id)(v.blocks[i]));
    assert(mapping_holds_fault(v.block_mappings[k], f));
    assert(materializable(v, f)(v.block_mappings[k]));
}

/// Where no block at the address has memory there and none can be brought, because
/// each is on its way already, lost or resident without memory, the fault is not served
/// here.
pub proof fn law_what_cannot_be_brought_is_not_served(v: PolarisView, f: GpuFault, ptr: u64)
    requires
        f.fault_address < u64::MAX,
        in_a_window(v, f),
        forall|j: int| !#[trigger] static_there(v, f, j),
        forall|j: int| #[trigger] mapped_there(v, f, j) ==> waits_for_memory(v, f, j),
        forall|j: int, i: int|
            #![trigger mapped_there(v, f, j), v.blocks[i]]
            mapped_there(v, f, j) && 0 <= i < v.blocks.len() && v.blocks[i].block_id
                == v.block_mappings[j].block_id ==> !(v.blocks[i].state is Unmapped
                || v.blocks[i].state is CpuOffloaded || v.blocks[i].state is CowPending),
    ensures
        hook_begins(v, f, ptr).0 == HookStep::Done(0),
        hook_begins(v, f, ptr).1.uvm.unserviceable == v.uvm.unserviceable.wrapping_add(1),
{
    lemma_lookups(v, f);
    lemma_first_index(v.fast_static_blocks, static_slot_serves(f));
    if let Some(j) = first_index(v.fast_static_blocks, static_slot_serves(f)) {
        assert(static_there(v, f, j));
    }
    lemma_nothing_to_map(v, f);
    if can_materialize(v, f) {
        let k = choose|k: int|
            0 <= k < v.block_mappings.len() && materializable(v, f)(
                #[trigger] v.block_mappings[k],
            );
        let m = v.block_mappings[k];
        assert(mapped_there(v, f, k));
        let i = choose|i: int|
            0 <= i < v.blocks.len() && can_become_resident(m.block_id)(#[trigger] v.blocks[i]);
        assert(v.blocks[i].block_id == m.block_id);
    }
}

// ─── The steps after it ─────────────────────────────────────────────────────

/// A mapping that worked answers the fault, and every mapping at the address remembers
/// the address space, also for copies after it is unmapped; no other mapping changes.
pub proof fn law_served_fault_is_remembered(v: PolarisView, run: HookRun, k: int)
    requires
        run.gpu_va_space_ptr != 0,
        run.fault.fault_address < u64::MAX,
        0 <= k < v.block_mappings.len(),
    ensures
        ({
            let (step, w) = hook_maps(v, run, 0);
            let m = v.block_mappings[k];
            &&& step == HookStep::Done(1)
            &&& w.block_mappings.len() == v.block_mappings.len()
            &&& at_the_address(m, run.fault.gpu_id, run.fault.fault_address)
                ==> w.block_mappings[k] == (PolarisBlockMapping {
                last_gpu_va_space_ptr: run.gpu_va_space_ptr,
                copy_gpu_va_space_ptr: run.gpu_va_space_ptr,
                ..m
            })
            &&& !at_the_address(m, run.fault.gpu_id, run.fault.fault_address)
                ==> w.block_mappings[k] == m
            &&& w.blocks == v.blocks && w.uvm.handled == v.uvm.handled.wrapping_add(1)
        }),
{
}

/// Static memory that was mapped remembers the address space in its slot.
pub proof fn law_served_static_memory_is_remembered(v: PolarisView, run: HookRun, j: usize)
    requires
        run.static_slot == Some(j),
        j < v.fast_static_blocks.len(),
    ensures
        ({
            let w = hook_maps(v, run, 0).1;
            &&& w.fast_static_blocks[j as int].last_gpu_va_space_ptr == run.gpu_va_space_ptr
            &&& w.fast_static_blocks[j as int].base == v.fast_static_blocks[j as int].base
            &&& forall|i: int|
                0 <= i < v.fast_static_blocks.len() && i != j
                    ==> #[trigger] w.fast_static_blocks[i] == v.fast_static_blocks[i]
        }),
{
}

/// A bad address is mended once, by making the range; any other failure, a second one,
/// and a range that cannot be made answer the fault with an error. No table changes.
pub proof fn law_bad_address_is_mended_once(v: PolarisView, run: HookRun, ret: i32)
    ensures
        ret != 0 ==> hook_maps(v, run, ret).1 == (PolarisView {
            uvm: hook_maps(v, run, ret).1.uvm,
            ..v
        }),
        ret == 14 && !run.retried ==> hook_maps(v, run, ret).0 == HookStep::Ensure(run),
        ret != 0 && (ret != 14 || run.retried) ==> hook_maps(v, run, ret).0 == HookStep::Done((-1int) as i32),
        hook_ensures(v, run, 0).0 == HookStep::Install(HookRun { retried: true, ..run }),
        ret != 0 ==> hook_ensures(v, run, ret).0 == HookStep::Done((-1int) as i32),
        hook_ensures(v, run, ret).1 == (PolarisView { uvm: hook_ensures(v, run, ret).1.uvm, ..v }),
{
}

/// What became of resolving a fault answers it: not ours, failed, or, where the block
/// still has no memory at the address, not served. No table changes.
pub proof fn law_resolution_answers_the_fault(v: PolarisView, run: HookRun, end: Resolution)
    requires
        run.fault.fault_address < u64::MAX,
    ensures
        hook_resolves(v, run, Resolution::NotMine).0 == HookStep::Done(0),
        hook_resolves(v, run, Resolution::Failed).0 == HookStep::Done((-1int) as i32),
        hook_resolves(v, run, Resolution::Failed).1.uvm.errors == v.uvm.errors.wrapping_add(1),
        (forall|j: int| #[trigger] mapped_there(v, run.fault, j) ==> waits_for_memory(
            v,
            run.fault,
            j,
        )) ==> hook_resolves(v, run, Resolution::Handled).0 == HookStep::Done(0),
        hook_resolves(v, run, end).1 == (PolarisView { uvm: hook_resolves(v, run, end).1.uvm, ..v }),
{
    if forall|j: int| #[trigger] mapped_there(v, run.fault, j) ==> waits_for_memory(
        v,
        run.fault,
        j,
    ) {
        lemma_nothing_to_map(v, run.fault);
    }
}

} // verus!
