//! Requests to the device one by one: what they refuse, whom they evict, how a
//! fault from the hook goes, and what the statistics say.

use polaris::abi::{
    PolarisBlockGetStateArg, PolarisBlockReleaseArg, PolarisBlockReserveArg, PolarisBlockState,
    PolarisBlockTouchArg, PolarisCompleteOperationArg, PolarisDecision, PolarisDecisionOp,
    PolarisEvictionPolicy,
    PolarisGetDecisionArg, PolarisGetGlobalStatsArg, PolarisListSessionsArg, PolarisPhase,
    PolarisProbeRmCopyArg, PolarisProbeRmPhysArg, PolarisRegisterBlockBackingArg,
    PolarisRegisterBlockMappingArg, PolarisRegisterGpuArg, PolarisRegisterStaticBlockArg,
    PolarisRegisterVaRangeArg, PolarisRegisterVaSpaceArg, PolarisRmCopyArg,
    PolarisSessionBranchArg, PolarisSessionCreateArg, PolarisSessionDestroyArg,
    PolarisSessionGetStatsArg, PolarisSetPolicyArg, PolarisSpillBlockArg,
    PolarisUnmapStaticBlockArg, PolarisUnregisterVaSpaceArg, POLARIS_DEFAULT_FAULT_TIMEOUT_MS,
    POLARIS_DECISION_FLAG_SOURCE_BLOCK_ID_VALID, POLARIS_RELEASE_FLAG_CALLER_OWNS_BACKING,
    POLARIS_RESERVE_FLAG_DEFER_FAULT,
    POLARIS_RESERVE_FLAG_OVERWRITE, POLARIS_RM_COPY_FROM_CPU, POLARIS_RM_COPY_TO_CPU,
    POLARIS_RM_PHYS_FLAG_CONTIGUOUS,
};
use polaris::blocks::reserve_fault_outcome;
use polaris::device::PolarisDevice;
use polaris::errno::{
    EBUSY, EEXIST, EFAULT, EINVAL, EIO, ENODEV, ENOENT, ENOMEM, EPERM, ETIMEDOUT,
};
use polaris::fault::{FaultStep, GpuFault};
use polaris::hook::{
    resolution_of, HookStep, Resolution, UVM_POLARIS_FAULT_ERROR, UVM_POLARIS_FAULT_HANDLED,
    UVM_POLARIS_FAULT_NOT_MINE,
};
use polaris::policy::{
    attention_stream_score, phase_aware_score, ranges_overlap, select_victim, ActiveKvWindow,
    VictimRequest,
};
use polaris::sessions::align_va;
use polaris::state::PolarisInner;
use polaris::types::{PolarisBlock, POLARIS_MAX_PENDING_DECISIONS};
use polaris::vaspace::{
    errno_of_helper, probe_rm_copy_reply, probe_rm_phys_reply, rm_copy_reply, unmap_outcome,
    CopyProbeReply, CopyReply, PhysProbeReply,
};

const MIB: u64 = 1024 * 1024;
const BLOCK: u64 = 2 * MIB;
const BASE: u64 = 0x1000_0000_0000;

fn gpu(gpu_id: u32) -> PolarisRegisterGpuArg {
    PolarisRegisterGpuArg {
        gpu_id,
        total_bytes: 16384 * MIB,
        budget_bytes: 512 * MIB,
        cpu_pool_bytes: 64 * MIB,
        ..Default::default()
    }
}

fn ready() -> (PolarisInner, PolarisDevice) {
    let mut inner = PolarisInner::new();
    let mut dev = PolarisDevice::open();
    inner.register_gpu(&mut dev, gpu(0)).expect("register the GPU");
    let range = PolarisRegisterVaRangeArg {
        base: BASE,
        length: 64 * BLOCK,
        block_size: BLOCK,
        ..Default::default()
    };
    inner.register_va_range(&mut dev, range).expect("register the range");
    (inner, dev)
}

fn create(inner: &mut PolarisInner, blocks: u64) -> u64 {
    let arg = PolarisSessionCreateArg {
        gpu_vas_bytes: blocks * BLOCK,
        bytes_per_token: BLOCK,
        ..Default::default()
    };
    inner.session_create(arg).expect("create a session").session_id
}

fn reserving(session_id: u64, token_start: u32, flags: u32) -> PolarisBlockReserveArg {
    PolarisBlockReserveArg {
        session_id,
        token_start,
        token_count: 1,
        phase: PolarisPhase::Prefill.to_u32(),
        flags,
        ..Default::default()
    }
}

fn serve(inner: &mut PolarisInner, now: u64) {
    loop {
        let batch = inner.get_decision(PolarisGetDecisionArg::default(), now);
        if batch.count == 0 {
            return;
        }
        for d in batch.decisions.iter().take(batch.count as usize) {
            let arg = PolarisCompleteOperationArg {
                decision_id: d.decision_id,
                generation: d.generation,
                output_handle: 0x1000 + d.block_id,
                output_cpu_addr: 0x2000_0000 + d.block_id * BLOCK,
                ..Default::default()
            };
            inner.complete_operation(arg, now).expect("complete an operation");
        }
    }
}

fn resident(inner: &mut PolarisInner, session_id: u64, token_start: u32, now: u64) -> u64 {
    let (reply, fault) =
        inner.block_reserve(reserving(session_id, token_start, 0)).expect("reserve a block");
    let fault = fault.expect("a fault to take up");
    match inner.resolve_gpu_fault(fault, now) {
        Ok(FaultStep::Wait { block_id, timeout_ms, .. }) => {
            assert_eq!(timeout_ms, POLARIS_DEFAULT_FAULT_TIMEOUT_MS);
            serve(inner, now);
            inner.finish_gpu_fault(block_id, 1).expect("a served fault");
        }
        other => panic!("{other:?}"),
    }
    reply.block_id
}

fn state_of(inner: &PolarisInner, block_id: u64) -> PolarisBlockState {
    inner.blocks[inner.find_block(block_id).expect("a known block")].state
}

// ─── Registering ────────────────────────────────────────────────────────────

#[test]
fn gpu_needs_its_capacities_once() {
    let mut inner = PolarisInner::new();
    let mut dev = PolarisDevice::open();
    let bare = PolarisRegisterGpuArg { gpu_id: 4, ..Default::default() };
    assert_eq!(inner.register_gpu(&mut dev, bare), Err(ENOENT));
    assert_eq!(inner.daemon_attached, 0);
    assert_eq!(inner.register_gpu(&mut dev, gpu(4)), Ok(()));
    assert_eq!(inner.register_gpu(&mut dev, bare), Ok(()));
    assert_eq!(inner.gpus[0].total_bytes, 16384 * MIB);
    assert_eq!(inner.daemon_attached, 1);
    let more = PolarisRegisterGpuArg { gpu_id: 4, budget_bytes: 7, ..Default::default() };
    assert_eq!(inner.register_gpu(&mut dev, more), Ok(()));
    assert_eq!((inner.gpus[0].total_bytes, inner.gpus[0].budget_bytes), (16384 * MIB, 7));
}

#[test]
fn range_needs_a_registered_handle() {
    let mut inner = PolarisInner::new();
    let mut dev = PolarisDevice::open();
    let range = PolarisRegisterVaRangeArg {
        gpu_id: 0,
        base: BASE,
        length: 64 * BLOCK,
        block_size: BLOCK,
        ..Default::default()
    };
    assert_eq!(inner.register_va_range(&mut dev, range), Err(EPERM));
    inner.register_gpu(&mut dev, gpu(0)).expect("register the GPU");
    let empty = PolarisRegisterVaRangeArg { length: 0, ..range };
    assert_eq!(inner.register_va_range(&mut dev, empty), Err(EINVAL));
    let elsewhere = PolarisRegisterVaRangeArg { gpu_id: 9, ..range };
    assert_eq!(inner.register_va_range(&mut dev, elsewhere), Err(ENOENT));
    let got = inner.register_va_range(&mut dev, range).expect("register the range");
    assert_eq!(got.range_id, 2);
    inner.close(dev);
    assert!(inner.gpus.is_empty());
}

#[test]
fn policies_have_numbers() {
    let (mut inner, _dev) = ready();
    for (policy, expected) in [
        (0, PolarisEvictionPolicy::Fifo),
        (1, PolarisEvictionPolicy::Lru),
        (2, PolarisEvictionPolicy::PhaseAware),
        (3, PolarisEvictionPolicy::AttentionStream),
    ] {
        let arg = PolarisSetPolicyArg { policy, ..Default::default() };
        assert_eq!(inner.set_policy(arg), Ok(()));
        assert_eq!(inner.eviction_policy, expected);
        assert_eq!(expected.to_u32(), policy);
    }
    let odd = PolarisSetPolicyArg { policy: 4, ..Default::default() };
    assert_eq!(inner.set_policy(odd), Err(EINVAL));
    assert_eq!(inner.eviction_policy, PolarisEvictionPolicy::AttentionStream);
}

// ─── Sessions ───────────────────────────────────────────────────────────────

#[test]
fn sessions_get_addresses_side_by_side() {
    let (mut inner, _dev) = ready();
    let a = create(&mut inner, 1);
    let b = create(&mut inner, 2);
    assert_eq!((a, b), (1, 2));
    assert_eq!(inner.sessions[0].gpu_vas_base, BASE);
    assert_eq!(inner.sessions[1].gpu_vas_base, BASE + BLOCK);
    assert_eq!(inner.sessions[1].priority, 5);
    assert_eq!(align_va(1), BLOCK);
    assert_eq!(align_va(BLOCK), BLOCK);
    let huge = PolarisSessionCreateArg { gpu_vas_bytes: 62 * BLOCK, ..Default::default() };
    assert_eq!(inner.session_create(huge), Err(ENOMEM));
    inner.gpus[0].healthy = false;
    assert_eq!(inner.session_create(PolarisSessionCreateArg::default()), Err(ENODEV));
    let list = inner.list_sessions(PolarisListSessionsArg::default());
    assert_eq!(list.count, 2);
    assert_eq!(&list.session_ids[..3], &[1, 2, 0]);
    let none = PolarisSessionGetStatsArg { session_id: 9, ..Default::default() };
    assert_eq!(inner.session_get_stats(none), Err(ENOENT));
}

#[test]
fn branch_shares_and_its_end_restores() {
    let (mut inner, _dev) = ready();
    let parent = create(&mut inner, 2);
    let id = resident(&mut inner, parent, 0, 1);
    let arg = PolarisSessionBranchArg { parent_session_id: parent, ..Default::default() };
    assert!(inner.can_branch(&arg));
    let child = inner.session_branch(arg).expect("branch a session").child_session_id;
    let i = inner.find_block(id).expect("a known block");
    assert_eq!(inner.blocks[i].refcount, 2);
    assert!(inner.blocks[i].flags.shared);
    assert_eq!(inner.sessions[1].gpu_vas_base, BASE + 2 * BLOCK);
    assert_eq!(inner.sessions[1].block_ids, vec![id]);
    let end = PolarisSessionDestroyArg { session_id: child, ..Default::default() };
    assert_eq!(inner.session_destroy(end), Ok(()));
    assert_eq!(inner.blocks[i].refcount, 1);
    assert!(!inner.blocks[i].flags.shared);
    assert_eq!(inner.sessions.len(), 1);
    assert!(inner.pending_decisions.is_empty());
    assert_eq!(inner.session_destroy(end), Err(ENOENT));
    let orphan = PolarisSessionBranchArg { parent_session_id: 77, ..Default::default() };
    assert_eq!(inner.session_branch(orphan), Err(ENOENT));
}

// ─── Blocks ─────────────────────────────────────────────────────────────────

#[test]
fn reservations_are_refused_with_a_reason() {
    let mut idle = PolarisInner::new();
    assert_eq!(idle.block_reserve(reserving(1, 0, 0)), Err(ENODEV));
    let (mut inner, _dev) = ready();
    assert_eq!(inner.block_reserve(reserving(1, 0, 0)), Err(ENOENT));
    let s = create(&mut inner, 4);
    assert!(inner.can_reserve(&reserving(s, 0, 0)));
    resident(&mut inner, s, 0, 1);
    assert_eq!(inner.block_reserve(reserving(s, 0, 0)), Err(EINVAL));
    let again = inner.block_reserve(reserving(s, 0, POLARIS_RESERVE_FLAG_OVERWRITE));
    assert_eq!(again.expect("use a block anew").1, None);
    let next = inner.block_reserve(reserving(s, 1, POLARIS_RESERVE_FLAG_DEFER_FAULT));
    let (reply, fault) = next.expect("reserve a block");
    assert_eq!((reply.gpu_vaddr, fault), (BASE + BLOCK, None));
    assert_eq!(state_of(&inner, reply.block_id), PolarisBlockState::Unmapped);
}

#[test]
fn reserve_then_release_restores_the_tables() {
    let (mut inner, _dev) = ready();
    let s = create(&mut inner, 4);
    let (reply, _) = inner
        .block_reserve(reserving(s, 2, POLARIS_RESERVE_FLAG_DEFER_FAULT))
        .expect("reserve a block");
    let release = PolarisBlockReleaseArg {
        session_id: s,
        token_start: 2,
        token_count: 1,
        ..Default::default()
    };
    assert_eq!(inner.block_release(release), Ok(()));
    assert!(inner.blocks.is_empty());
    assert!(inner.sessions[0].block_ids.is_empty());
    assert_eq!(inner.next_block_id, reply.block_id + 1);
    assert_eq!(inner.block_release(release), Err(ENOENT));
}

#[test]
fn release_leaves_memory_that_the_caller_keeps() {
    let (mut inner, _dev) = ready();
    let s = create(&mut inner, 4);
    let id = resident(&mut inner, s, 0, 1);
    assert_eq!(inner.gpus[0].used_bytes, BLOCK);
    let mut release = PolarisBlockReleaseArg {
        session_id: s,
        token_start: 0,
        token_count: 1,
        flags: POLARIS_RELEASE_FLAG_CALLER_OWNS_BACKING,
        ..Default::default()
    };
    assert_eq!(inner.block_release(release), Ok(()));
    assert_eq!(inner.find_block(id), None);
    assert!(inner.pending_decisions.is_empty());
    assert_eq!(inner.gpus[0].used_bytes, 0);

    resident(&mut inner, s, 1, 1);
    release.token_start = 1;
    release.flags = 0;
    assert_eq!(inner.block_release(release), Ok(()));
    assert_eq!(inner.pending_decisions[0].op, PolarisDecisionOp::Free.to_u32());
}

#[test]
fn touch_marks_exactly_the_blocks_it_is_about() {
    let (mut inner, _dev) = ready();
    let s = create(&mut inner, 4);
    for t in 0..3 {
        resident(&mut inner, s, t, 1);
    }
    let arg = PolarisBlockTouchArg {
        session_id: s,
        token_start: 1,
        token_count: 1,
        ..Default::default()
    };
    inner.block_touch(arg, 99);
    let times: Vec<u64> = inner.blocks.iter().map(|b| b.last_touch_ns).collect();
    assert_eq!(times, vec![1, 99, 1]);
}

#[test]
fn spilling_depends_on_where_a_block_is() {
    let (mut inner, _dev) = ready();
    let s = create(&mut inner, 4);
    let spill = |id: u64| PolarisSpillBlockArg { block_id: id, ..Default::default() };
    assert_eq!(inner.spill_block(spill(0)), Err(EINVAL));
    assert_eq!(inner.spill_block(spill(9)), Err(ENOENT));
    let (waiting, _) = inner
        .block_reserve(reserving(s, 3, POLARIS_RESERVE_FLAG_DEFER_FAULT))
        .expect("reserve a block");
    assert_eq!(inner.spill_block(spill(waiting.block_id)), Err(ENOENT));
    let id = resident(&mut inner, s, 0, 1);
    let d = inner.spill_block(spill(id)).expect("spill a block");
    assert_eq!(inner.pending_decisions[0].decision_id, d);
    assert_eq!(inner.spill_block(spill(id)), Err(EBUSY));
    serve(&mut inner, 2);
    assert_eq!(state_of(&inner, id), PolarisBlockState::CpuOffloaded);
    assert_eq!(inner.gpus[0].used_bytes, 0);
    assert_eq!(inner.gpus[0].cpu_pool_used_bytes, BLOCK);
    assert_eq!(inner.spill_block(spill(id)), Ok(0));

    let backed = resident(&mut inner, s, 1, 1);
    let i = inner.find_block(backed).expect("a known block");
    inner.blocks[i].gpu_phys_handle = 0;
    inner.blocks[i].rm_h_client = 1;
    inner.blocks[i].rm_h_memory = 2;
    inner.blocks[i].rm_backing_length = BLOCK;
    let d = inner.spill_block(spill(backed)).expect("spill a block");
    let asked = inner.pending_decisions[0];
    assert_eq!((asked.decision_id, asked.block_id, asked.src_handle), (d, backed, 0));
    assert_eq!(asked.op, PolarisDecisionOp::Offload.to_u32());
    assert_eq!(state_of(&inner, backed), PolarisBlockState::OffloadPending);
    inner.get_decision(PolarisGetDecisionArg::default(), 3);

    let empty = resident(&mut inner, s, 2, 1);
    let i = inner.find_block(empty).expect("a known block");
    inner.blocks[i].gpu_phys_handle = 0;
    assert_eq!(inner.spill_block(spill(empty)), Err(ENOENT));
}

#[test]
fn memory_is_copied_through_the_space_it_was_mapped_in() {
    let (mut inner, _dev) = ready();
    let mut worker = PolarisDevice::open();
    inner.register_va_space(&mut worker, space(BASE), 1).expect("register a space");
    let s = create(&mut inner, 4);
    let id = resident(&mut inner, s, 0, 1);
    let i = inner.find_block(id).expect("a known block");
    inner.blocks[i].gpu_phys_handle = 0;
    inner.blocks[i].rm_control_fd = 3;
    inner.blocks[i].rm_h_client = 8;
    inner.blocks[i].rm_h_memory = 9;
    inner.blocks[i].rm_backing_length = BLOCK;
    let place = PolarisRegisterBlockMappingArg {
        block_id: id,
        gpu_id: 0,
        rm_client_token: 0xc1,
        va_space_token: 0xd1,
        base: BASE,
        length: BLOCK,
        ..Default::default()
    };
    inner.register_block_mapping(place).expect("register a mapping");
    let out = PolarisRmCopyArg {
        block_id: id,
        length: BLOCK,
        user_cpu_addr: 0x1000,
        direction: POLARIS_RM_COPY_TO_CPU,
        ..Default::default()
    };
    assert_eq!(inner.rm_copy(out), Err(ENOENT));
    inner.note_block_mapping_fault(0, BASE, 0x42);
    assert!(inner.rm_copy(out).is_ok());
    let phys = PolarisProbeRmPhysArg { block_id: id, ..Default::default() };
    assert!(inner.probe_rm_phys(phys).is_ok());

    // A resident block is copied where it is mapped; one on its way, where it was.
    let list = inner.unmap_observed_block_mappings(id).expect("observed mappings");
    inner.mappings_were_unmapped(&list);
    assert_eq!(inner.rm_copy(out), Err(ENOENT));
    let spill = PolarisSpillBlockArg { block_id: id, ..Default::default() };
    inner.spill_block(spill).expect("spill a block");
    let (target, n) = inner.rm_copy(out).expect("a target");
    assert_eq!((target.gpu_va_space_ptr, target.h_memory, n), (0x42, 9, BLOCK));
    // Only the memory of a resident block is probed.
    let phys = PolarisProbeRmPhysArg { block_id: id, ..Default::default() };
    let pattern = PolarisProbeRmCopyArg { block_id: id, ..Default::default() };
    assert_eq!(inner.probe_rm_phys(phys), Err(ENOENT));
    assert_eq!(inner.probe_rm_copy(pattern), Err(ENOENT));
    serve(&mut inner, 2);
    assert_eq!(state_of(&inner, id), PolarisBlockState::CpuOffloaded);
    assert_eq!(inner.rm_copy(out), Err(ENOENT));
    let back = PolarisRmCopyArg {
        rm_control_fd: 3,
        rm_h_client: 0xc,
        rm_h_memory: 0xd,
        direction: POLARIS_RM_COPY_FROM_CPU,
        ..out
    };
    let (target, n) = inner.rm_copy(back).expect("a target");
    assert_eq!((target.gpu_va_space_ptr, target.h_memory, n), (0x42, 0xd, BLOCK));
    assert_eq!(inner.register_block_mapping(place), Ok(()));
    assert_eq!(inner.rm_copy(back), Err(ENOENT));
}

#[test]
fn state_of_a_block_by_id_or_place() {
    let (mut inner, _dev) = ready();
    let s = create(&mut inner, 4);
    let id = resident(&mut inner, s, 2, 1);
    let by_place = PolarisBlockGetStateArg {
        session_id: s,
        token_start: 2,
        token_count: 1,
        ..Default::default()
    };
    let got = inner.block_get_state(by_place).expect("the state of a block");
    assert_eq!((got.block_id, got.refcount, got.gpu_vaddr), (id, 1, BASE + 2 * BLOCK));
    let nowhere = PolarisBlockGetStateArg { token_start: 3, ..by_place };
    assert_eq!(inner.block_get_state(nowhere), Err(ENOENT));
}

// ─── Decisions ──────────────────────────────────────────────────────────────

fn asked(inner: &mut PolarisInner, session_id: u64) -> (u64, u64, u64) {
    let (reply, fault) = inner.block_reserve(reserving(session_id, 0, 0)).expect("reserve a block");
    let step = inner.resolve_gpu_fault(fault.expect("a fault"), 1).expect("a step");
    let batch = inner.get_decision(PolarisGetDecisionArg::default(), 1);
    assert_eq!(batch.count, 1);
    match step {
        FaultStep::Wait { fault_id, .. } => {
            assert_eq!(batch.decisions[0].fault_id, fault_id);
            (reply.block_id, batch.decisions[0].decision_id, fault_id)
        }
        other => panic!("{other:?}"),
    }
}

#[test]
fn stale_completions_change_nothing() {
    let (mut inner, _dev) = ready();
    let s = create(&mut inner, 4);
    let (id, d, fault_id) = asked(&mut inner, s);
    let stale = PolarisCompleteOperationArg {
        decision_id: d,
        generation: 77,
        output_handle: 5,
        ..Default::default()
    };
    assert_eq!(inner.complete_operation(stale, 1), Ok(0));
    assert_eq!(state_of(&inner, id), PolarisBlockState::AllocPending);
    let unknown = PolarisCompleteOperationArg { decision_id: d + 50, ..stale };
    assert_eq!(inner.complete_operation(unknown, 1), Ok(0));
    let torn = PolarisCompleteOperationArg { generation: 1, rm_h_client: 4, ..stale };
    assert_eq!(inner.complete_operation(torn, 1), Err(EINVAL));
    let short = PolarisCompleteOperationArg { rm_h_memory: 4, rm_backing_length: 1, ..torn };
    assert_eq!(inner.complete_operation(short, 1), Err(EINVAL));
    let good = PolarisCompleteOperationArg { generation: 1, ..stale };
    assert!(inner.can_complete(&good));
    assert_eq!(inner.complete_operation(good, 7), Ok(fault_id));
    assert_eq!(state_of(&inner, id), PolarisBlockState::Resident);
    assert_eq!(inner.gpus[0].used_bytes, BLOCK);
}

#[test]
fn failures_are_tried_again_and_then_final() {
    let (mut inner, _dev) = ready();
    let s = create(&mut inner, 4);
    let (id, d, fault_id) = asked(&mut inner, s);
    let failed = PolarisCompleteOperationArg {
        decision_id: d,
        generation: 1,
        result: -ENOMEM,
        ..Default::default()
    };
    assert_eq!(inner.complete_operation(failed, 1), Ok(0));
    let i = inner.find_block(id).expect("a known block");
    assert_eq!(inner.blocks[i].retry_count, 1);
    assert_eq!(inner.pending_decisions[0].op, PolarisDecisionOp::Alloc.to_u32());
    let again = inner.pending_decisions[0].decision_id;
    assert_eq!(again, d + 1);
    let lost = PolarisCompleteOperationArg { decision_id: again, result: -ENODEV, ..failed };
    assert_eq!(inner.complete_operation(lost, 1), Ok(fault_id));
    assert_eq!(state_of(&inner, id), PolarisBlockState::Evicted);
    assert!(!inner.gpus[0].healthy);
    assert_eq!(inner.total_evictions, 1);
}

#[test]
fn a_retry_asks_for_what_failed() {
    let (mut inner, _dev) = ready();
    let parent = create(&mut inner, 1);
    let id = resident(&mut inner, parent, 0, 1);
    let retried = |inner: &mut PolarisInner| -> (PolarisDecision, PolarisDecision) {
        let d = inner.get_decision(PolarisGetDecisionArg::default(), 1).decisions[0];
        let failed = PolarisCompleteOperationArg {
            decision_id: d.decision_id,
            generation: d.generation,
            result: -ENOMEM,
            ..Default::default()
        };
        assert_eq!(inner.complete_operation(failed, 1), Ok(0));
        let again = inner.pending_decisions[0];
        assert_eq!(again.decision_id, d.decision_id + 1);
        assert_eq!((again.op, again.block_id), (d.op, d.block_id));
        assert_eq!((again.generation, again.size_bytes), (d.generation, d.size_bytes));
        assert_eq!(again.dst_vaddr, d.dst_vaddr);
        (d, again)
    };

    // What a branch inherited is mapped where it sees it.
    let arg = PolarisSessionBranchArg { parent_session_id: parent, ..Default::default() };
    let child = inner.session_branch(arg).expect("branch a session").child_session_id;
    inner.resolve_gpu_fault(fault_at(BASE + BLOCK), 1).expect("a step");
    let (d, again) = retried(&mut inner);
    assert_eq!(again.op, PolarisDecisionOp::MapExisting.to_u32());
    assert_eq!((d.src_handle, d.dst_vaddr), (0x1000 + id, BASE + BLOCK));
    assert_eq!((again.src_handle, again.dst_vaddr), (d.src_handle, d.dst_vaddr));
    serve(&mut inner, 1);
    let end = PolarisSessionDestroyArg { session_id: child, ..Default::default() };
    inner.session_destroy(end).expect("end a branch");
    serve(&mut inner, 1);

    // A move to the host.
    let spill = PolarisSpillBlockArg { block_id: id, ..Default::default() };
    inner.spill_block(spill).expect("spill a block");
    let (_, again) = retried(&mut inner);
    assert_eq!(again.op, PolarisDecisionOp::Offload.to_u32());
    assert_eq!((again.src_handle, again.src_vaddr), (0x1000 + id, BASE));
    serve(&mut inner, 1);
    assert_eq!(state_of(&inner, id), PolarisBlockState::CpuOffloaded);

    // The way back.
    inner.resolve_gpu_fault(fault_at(BASE), 1).expect("a step");
    let (_, again) = retried(&mut inner);
    assert_eq!(again.op, PolarisDecisionOp::Reload.to_u32());
    assert_eq!((again.cpu_addr, again.dst_vaddr), (0x2000_0000 + id * BLOCK, BASE));
    serve(&mut inner, 1);
    assert_eq!(state_of(&inner, id), PolarisBlockState::Resident);

    // Memory for a block that has none yet.
    let other = create(&mut inner, 1);
    let (reply, fault) =
        inner.block_reserve(reserving(other, 0, 0)).expect("reserve a block");
    let fault = fault.expect("a fault to take up");
    let address = fault.fault_address;
    inner.resolve_gpu_fault(fault, 1).expect("a step");
    let (_, again) = retried(&mut inner);
    assert_eq!(again.op, PolarisDecisionOp::Alloc.to_u32());
    assert_eq!(again.dst_vaddr, address);
    assert_ne!(again.generation, 0);
    // An answer of another generation is dropped; the decision's own counts.
    let late = PolarisCompleteOperationArg {
        decision_id: again.decision_id,
        generation: again.generation + 1,
        output_handle: 0x77,
        ..Default::default()
    };
    assert_eq!(inner.complete_operation(late, 1), Ok(0));
    assert_eq!(state_of(&inner, reply.block_id), PolarisBlockState::AllocPending);
    serve(&mut inner, 1);
    assert_eq!(state_of(&inner, reply.block_id), PolarisBlockState::Resident);
    let last = inner.find_block(reply.block_id).expect("a known block");
    assert_eq!(inner.blocks[last].retry_count, 0);

    // A mapping of a block that is resident.
    inner.resolve_gpu_fault(fault_at(BASE), 1).expect("a step");
    let (_, again) = retried(&mut inner);
    assert_eq!(again.op, PolarisDecisionOp::MapExisting.to_u32());
    assert_eq!((again.src_handle, again.dst_vaddr), (0x1000 + id, BASE));
    serve(&mut inner, 1);

    // The end, with memory on the GPU and with a buffer on the host.
    for token in [0, 1] {
        let s = create(&mut inner, 1);
        let id = resident(&mut inner, s, 0, 1);
        if token == 1 {
            let spill = PolarisSpillBlockArg { block_id: id, ..Default::default() };
            inner.spill_block(spill).expect("spill a block");
            serve(&mut inner, 1);
        }
        let end = PolarisSessionDestroyArg { session_id: s, ..Default::default() };
        inner.session_destroy(end).expect("end a session");
        let (d, again) = retried(&mut inner);
        assert_eq!(again.op, PolarisDecisionOp::Free.to_u32());
        assert_eq!((again.src_handle, again.cpu_addr), (d.src_handle, d.cpu_addr));
        let expected = if token == 0 { (0x1000 + id, 0) } else { (0, 0x2000_0000 + id * BLOCK) };
        assert_eq!((again.src_handle, again.cpu_addr), expected);
        serve(&mut inner, 1);
        assert_eq!(inner.find_block(id), None);
    }
}

#[test]
fn a_full_queue_takes_nothing_more() {
    let (mut inner, _dev) = ready();
    let s = create(&mut inner, 8);
    let own = resident(&mut inner, s, 0, 1);
    let shared = resident(&mut inner, s, 1, 1);
    let i = inner.find_block(shared).expect("a known block");
    inner.blocks[i].refcount = 2;
    inner.blocks[i].flags.shared = true;
    let (waiting, _) = inner
        .block_reserve(reserving(s, 2, POLARIS_RESERVE_FLAG_DEFER_FAULT))
        .expect("reserve a block");
    while inner.pending_decisions.len() < POLARIS_MAX_PENDING_DECISIONS {
        inner.pending_decisions.push(PolarisDecision::default());
    }
    let (blocks, next) = (inner.blocks.clone(), inner.next_block_id);

    assert_eq!(inner.block_reserve(reserving(s, 3, 0)), Err(ENOMEM));
    let anew = POLARIS_RESERVE_FLAG_OVERWRITE;
    assert_eq!(inner.block_reserve(reserving(s, 1, anew)), Err(ENOMEM));
    let later = anew | POLARIS_RESERVE_FLAG_DEFER_FAULT;
    assert_eq!(inner.block_reserve(reserving(s, 1, later)), Err(ENOMEM));
    assert_eq!(inner.block_reserve(reserving(s, 2, anew)), Err(ENOMEM));
    assert_eq!(inner.resolve_gpu_fault(fault_at(waiting.gpu_vaddr), 2), Err(ENOMEM));
    let spill = PolarisSpillBlockArg { block_id: own, ..Default::default() };
    assert_eq!(inner.spill_block(spill), Err(ENOMEM));
    let end = PolarisSessionDestroyArg { session_id: s, ..Default::default() };
    assert_eq!(inner.session_destroy(end), Err(ENOMEM));
    assert_eq!((inner.blocks.clone(), inner.next_block_id), (blocks, next));
    assert_eq!(inner.pending_decisions.len(), POLARIS_MAX_PENDING_DECISIONS);

    // What adds nothing to the queue is not refused.
    assert_eq!(inner.block_reserve(reserving(s, 0, 0)), Err(EINVAL));
    assert_eq!(inner.block_reserve(reserving(s, 0, anew)).expect("use a block anew").1, None);
    let left = inner.block_reserve(reserving(s, 3, POLARIS_RESERVE_FLAG_DEFER_FAULT));
    assert_eq!(left.expect("reserve a block").1, None);
    assert_eq!(inner.resolve_gpu_fault(fault_at(1), 2), Ok(FaultStep::NotMine));

    inner.pending_decisions.pop();
    let step = inner.resolve_gpu_fault(fault_at(waiting.gpu_vaddr), 2);
    assert!(matches!(step, Ok(FaultStep::Wait { .. })));
    assert_eq!(inner.pending_decisions.len(), POLARIS_MAX_PENDING_DECISIONS);
}

#[test]
fn a_copy_of_backed_memory_names_its_block() {
    let (mut inner, _dev) = ready();
    let parent = create(&mut inner, 1);
    let id = resident(&mut inner, parent, 0, 1);
    let i = inner.find_block(id).expect("a known block");
    inner.blocks[i].gpu_phys_handle = 0;
    inner.blocks[i].rm_h_client = 8;
    inner.blocks[i].rm_h_memory = 9;
    inner.blocks[i].rm_backing_length = BLOCK;
    let arg = PolarisSessionBranchArg { parent_session_id: parent, ..Default::default() };
    let child = inner.session_branch(arg).expect("branch a session").child_session_id;
    let (_, fault) = inner
        .block_reserve(reserving(child, 0, POLARIS_RESERVE_FLAG_OVERWRITE))
        .expect("reserve a block");

    // The budget is full with the block that is copied, and it is not to go.
    inner.gpus[0].budget_bytes = BLOCK;
    let fault = fault.expect("a fault");
    assert_eq!(inner.resolve_gpu_fault(fault, 2), Err(ENOMEM));
    inner.gpus[0].budget_bytes = 2 * BLOCK;
    inner.resolve_gpu_fault(fault, 2).expect("a step");
    let d = inner.pending_decisions[0];
    assert_eq!((d.op, d.src_handle), (PolarisDecisionOp::CowBreak.to_u32(), 0));
    assert_eq!(d._reserved, [id, POLARIS_DECISION_FLAG_SOURCE_BLOCK_ID_VALID, 0, 0]);
    let d = inner.get_decision(PolarisGetDecisionArg::default(), 2).decisions[0];
    let failed = PolarisCompleteOperationArg {
        decision_id: d.decision_id,
        generation: d.generation,
        result: -EFAULT,
        ..Default::default()
    };
    assert_eq!(inner.complete_operation(failed, 2), Ok(0));
    assert_eq!(inner.pending_decisions[0]._reserved, d._reserved);
}

#[test]
fn a_wait_that_is_over_evicts() {
    let (mut inner, _dev) = ready();
    let s = create(&mut inner, 4);
    let (id, _, _) = asked(&mut inner, s);
    assert_eq!(inner.finish_gpu_fault(id, 0), Err(ETIMEDOUT));
    assert_eq!(state_of(&inner, id), PolarisBlockState::Evicted);
    assert_eq!(inner.finish_gpu_fault(id + 100, 0), Ok(()));
}

#[test]
fn closing_the_executor_strands_nobody() {
    let (mut inner, dev) = ready();
    let s = create(&mut inner, 4);
    let (id, _, fault_id) = asked(&mut inner, s);
    assert_eq!(inner.close(dev), vec![fault_id]);
    assert_eq!(state_of(&inner, id), PolarisBlockState::Evicted);
    assert_eq!(inner.daemon_attached, 0);
    assert!(inner.pending_decisions.is_empty());
    assert_eq!(inner.gpus.len(), 1);
    assert!(!inner.gpus[0].va_range_registered);
}

// ─── Faults and eviction ────────────────────────────────────────────────────

fn fault_at(addr: u64) -> GpuFault {
    GpuFault {
        gpu_id: 0,
        rm_client_token: 0,
        va_space_token: 0,
        fault_address: addr,
        access_type: 0,
    }
}

#[test]
fn faults_away_from_blocks() {
    let (mut inner, _dev) = ready();
    assert!(inner.can_fault());
    assert_eq!(inner.resolve_gpu_fault(fault_at(1), 1), Ok(FaultStep::NotMine));
    assert_eq!(inner.resolve_gpu_fault(fault_at(BASE), 1), Ok(FaultStep::Error));
    assert_eq!(reserve_fault_outcome(Ok(FaultStep::NotMine)), Err(EIO));
    assert_eq!(reserve_fault_outcome(Ok(FaultStep::Error)), Err(EIO));
    assert_eq!(reserve_fault_outcome(Err(ENOMEM)), Err(ENOMEM));
}

#[test]
fn a_branch_maps_what_it_inherited() {
    let (mut inner, _dev) = ready();
    let parent = create(&mut inner, 1);
    let id = resident(&mut inner, parent, 0, 1);
    let arg = PolarisSessionBranchArg { parent_session_id: parent, ..Default::default() };
    inner.session_branch(arg).expect("branch a session");
    let step = inner.resolve_gpu_fault(fault_at(BASE + BLOCK), 1).expect("a step");
    assert!(matches!(step, FaultStep::Wait { .. }));
    let d = inner.pending_decisions[0];
    assert_eq!(d.op, PolarisDecisionOp::MapExisting.to_u32());
    assert_eq!((d.src_handle, d.dst_vaddr), (0x1000 + id, BASE + BLOCK));
}

#[test]
fn oldest_and_least_used_blocks_go_first() {
    for (policy, expected) in [(0, 0), (1, 1)] {
        let (mut inner, _dev) = ready();
        let arg = PolarisSetPolicyArg { policy, ..Default::default() };
        inner.set_policy(arg).expect("set the policy");
        let a = create(&mut inner, 1);
        let b = create(&mut inner, 1);
        resident(&mut inner, a, 0, 10);
        resident(&mut inner, b, 0, 20);
        inner.blocks[0].last_touch_ns = 50;
        let victim = select_victim(&inner, 99, 0, 0, 0, 100).expect("a victim");
        assert_eq!(victim.0, expected);
        assert_eq!(select_victim(&inner, 99, 1, 0, 0, 100), None);
        let handle = inner.blocks[expected].gpu_phys_handle;
        let spared = select_victim(&inner, 99, 0, handle, 0, 100).expect("a victim");
        assert_ne!(spared.0, expected);
    }
}

#[test]
fn shared_blocks_stay_under_time_ordered_policies() {
    let (mut inner, _dev) = ready();
    inner.set_policy(PolarisSetPolicyArg::default()).expect("set the policy");
    let a = create(&mut inner, 1);
    resident(&mut inner, a, 0, 10);
    inner.blocks[0].refcount = 2;
    assert_eq!(select_victim(&inner, 99, 0, 0, 0, 100), None);
}

#[test]
fn no_room_and_nobody_to_evict() {
    let (mut inner, _dev) = ready();
    inner.gpus[0].budget_bytes = BLOCK;
    inner.gpus[0].cpu_pool_total_bytes = 0;
    let a = create(&mut inner, 1);
    resident(&mut inner, a, 0, 10);
    let b = create(&mut inner, 1);
    let (_, fault) = inner.block_reserve(reserving(b, 0, 0)).expect("reserve a block");
    assert_eq!(inner.resolve_gpu_fault(fault.expect("a fault"), 11), Err(ENOMEM));
    assert_eq!(inner.schedule_budget_victim(b, 9, 1, 0, 0, 1), Err(ENODEV));
    assert_eq!(inner.schedule_budget_victim(b, 0, 0, 0, 0, 1), Ok(()));
}

fn scored(inner: &PolarisInner) -> PolarisBlock {
    inner.blocks[0]
}

#[test]
fn scores_are_what_they_are() {
    let (mut inner, _dev) = ready();
    let s = create(&mut inner, 4);
    resident(&mut inner, s, 0, 0);
    let q = VictimRequest {
        requesting_session_id: 99,
        target_gpu: 0,
        protected_phys_handle: 0,
        protected_block_id: 0,
    };
    let young = phase_aware_score(&inner, &scored(&inner), q, 0);
    let old = phase_aware_score(&inner, &scored(&inner), q, 5_000_000);
    assert_eq!(old - young, 5);
    let ancient = phase_aware_score(&inner, &scored(&inner), q, u64::MAX);
    assert_eq!(ancient - young, 120_000);
    inner.blocks[0].phase = PolarisPhase::Decode;
    assert_eq!(young - phase_aware_score(&inner, &scored(&inner), q, 0), 600);

    let window = ActiveKvWindow {
        session_id: s,
        read_start: 100,
        read_end: 108,
        write_start: 0,
        write_end: 0,
    };
    inner.blocks[0].phase = PolarisPhase::Prefill;
    let far = attention_stream_score(&inner, &scored(&inner), window);
    inner.blocks[0].token_start = 104;
    let near = attention_stream_score(&inner, &scored(&inner), window);
    assert!(far > near);
    assert!(ranges_overlap(0, 2, 1, 3));
    assert!(!ranges_overlap(0, 1, 1, 3));
}

// ─── Address spaces and the hook ────────────────────────────────────────────

fn space(base: u64) -> PolarisRegisterVaSpaceArg {
    PolarisRegisterVaSpaceArg {
        gpu_id: 0,
        rm_client_token: 0xc1,
        va_space_token: 0xd1,
        managed_base: base,
        managed_length: 4 * BLOCK,
        ..Default::default()
    }
}

fn static_block(base: u64) -> PolarisRegisterStaticBlockArg {
    PolarisRegisterStaticBlockArg {
        gpu_id: 0,
        rm_control_fd: 3,
        rm_client_token: 0xc1,
        va_space_token: 0xd1,
        base,
        length: BLOCK,
        offset: 0,
        h_client: 5,
        h_memory: 6,
        ..Default::default()
    }
}

fn hooked(addr: u64) -> GpuFault {
    GpuFault {
        gpu_id: 0,
        rm_client_token: 0xc1,
        va_space_token: 0xd1,
        fault_address: addr,
        access_type: 1,
    }
}

#[test]
fn address_spaces_are_refused_with_a_reason() {
    let (mut inner, _dev) = ready();
    let mut worker = PolarisDevice::open();
    let nameless = PolarisRegisterVaSpaceArg { va_space_token: 0, ..space(BASE) };
    assert_eq!(inner.register_va_space(&mut worker, nameless, 1), Err(EINVAL));
    let elsewhere = PolarisRegisterVaSpaceArg { gpu_id: 9, ..space(BASE) };
    assert_eq!(inner.register_va_space(&mut worker, elsewhere, 1), Err(ENOENT));
    assert_eq!(inner.register_va_space(&mut worker, space(BASE), 1), Ok(()));
    assert_eq!(inner.register_va_space(&mut worker, space(BASE), 1), Err(EBUSY));
    let mut other = PolarisDevice::open();
    assert_eq!(inner.register_va_space(&mut other, space(BASE), 1), Err(EEXIST));
    let gone = PolarisUnregisterVaSpaceArg { va_space_token: 9, ..Default::default() };
    assert_eq!(inner.unregister_va_space(&mut worker, gone), Err(ENOENT));
    let mine = PolarisUnregisterVaSpaceArg {
        rm_client_token: 0xc1,
        va_space_token: 0xd1,
        ..Default::default()
    };
    assert_eq!(inner.unregister_va_space(&mut worker, mine), Ok(()));
    assert!(inner.va_spaces.is_empty());
    assert_eq!(inner.register_va_space(&mut worker, space(BASE), 1), Ok(()));
}

#[test]
fn static_blocks_live_in_their_window() {
    let (mut inner, _dev) = ready();
    let mut worker = PolarisDevice::open();
    assert_eq!(inner.register_static_block(static_block(BASE)), Err(ENOENT));
    inner.register_va_space(&mut worker, space(BASE), 1).expect("register a space");
    assert_eq!(inner.register_static_block(static_block(BASE + 4 * BLOCK)), Err(EINVAL));
    assert_eq!(inner.register_static_block(static_block(BASE)), Ok(()));
    assert_eq!(inner.register_static_block(static_block(BASE)), Err(EEXIST));
    let unmap = PolarisUnmapStaticBlockArg {
        gpu_id: 0,
        rm_client_token: 0xc1,
        va_space_token: 0xd1,
        base: BASE,
        length: BLOCK,
        ..Default::default()
    };
    assert_eq!(inner.unmap_static_block(unmap), Err(ENOENT));

    let run = match inner.uvm_handle_gpu_fault(hooked(BASE + 8), 0x77) {
        HookStep::Install(run) => run,
        other => panic!("{other:?}"),
    };
    assert_eq!((run.mapping.base, run.mapping.h_memory), (BASE, 6));
    let again = match inner.hook_mapped(run, EFAULT) {
        HookStep::Ensure(run) => run,
        other => panic!("{other:?}"),
    };
    let retry = match inner.hook_ensured(again, 0) {
        HookStep::Install(run) => run,
        other => panic!("{other:?}"),
    };
    assert_eq!(inner.hook_mapped(retry, 0), HookStep::Done(UVM_POLARIS_FAULT_HANDLED));
    assert_eq!(inner.unmap_static_block(unmap), Ok(0x77));
    inner.static_block_was_unmapped(unmap);
    assert_eq!(inner.unmap_static_block(unmap), Err(ENOENT));
    assert_eq!(inner.hook_mapped(retry, EFAULT), HookStep::Done(UVM_POLARIS_FAULT_ERROR));
    assert_eq!((inner.uvm.hook_calls, inner.uvm.handled, inner.uvm.errors), (1, 1, 1));
}

#[test]
fn hook_materializes_a_block_and_maps_it() {
    let (mut inner, _dev) = ready();
    let mut worker = PolarisDevice::open();
    inner.register_va_space(&mut worker, space(BASE), 1).expect("register a space");
    let s = create(&mut inner, 4);
    let (reply, _) = inner
        .block_reserve(reserving(s, 0, POLARIS_RESERVE_FLAG_DEFER_FAULT))
        .expect("reserve a block");
    let place = PolarisRegisterBlockMappingArg {
        block_id: reply.block_id,
        gpu_id: 0,
        rm_client_token: 0xc1,
        va_space_token: 0xd1,
        base: reply.gpu_vaddr,
        length: BLOCK,
        ..Default::default()
    };
    assert_eq!(inner.register_block_mapping(place), Ok(()));

    let run = match inner.uvm_handle_gpu_fault(hooked(reply.gpu_vaddr), 0x99) {
        HookStep::Resolve(run) => run,
        other => panic!("{other:?}"),
    };
    let begun = inner.resolve_gpu_fault(run.fault, 1);
    let batch = inner.get_decision(PolarisGetDecisionArg::default(), 1);
    let done = PolarisCompleteOperationArg {
        decision_id: batch.decisions[0].decision_id,
        generation: batch.decisions[0].generation,
        rm_control_fd: 3,
        rm_h_client: 8,
        rm_h_memory: 9,
        rm_backing_length: BLOCK,
        ..Default::default()
    };
    inner.complete_operation(done, 1).expect("complete an operation");
    let finished = inner.finish_gpu_fault(reply.block_id, 1);
    let end = resolution_of(begun, Some(finished));
    assert_eq!(end, Resolution::Handled);
    let run = match inner.hook_resolved(run, end) {
        HookStep::Install(run) => run,
        other => panic!("{other:?}"),
    };
    assert_eq!((run.mapping.base, run.mapping.h_memory), (reply.gpu_vaddr, 9));
    assert_eq!(inner.hook_mapped(run, 0), HookStep::Done(UVM_POLARIS_FAULT_HANDLED));
    assert_eq!(inner.block_mappings[0].last_gpu_va_space_ptr, 0x99);

    let list = inner.unmap_observed_block_mappings(reply.block_id).expect("observed mappings");
    assert_eq!(list.len(), 1);
    inner.mappings_were_unmapped(&list);
    assert_eq!(inner.block_mappings[0].last_gpu_va_space_ptr, 0);
}

#[test]
fn hook_leaves_other_faults_alone() {
    let (mut inner, _dev) = ready();
    let step = inner.uvm_handle_gpu_fault(hooked(BASE), 1);
    assert_eq!(step, HookStep::Done(UVM_POLARIS_FAULT_NOT_MINE));
    assert_eq!((inner.uvm.hook_calls, inner.uvm.fast_misses), (1, 1));
    assert_eq!(resolution_of(Ok(FaultStep::NotMine), None), Resolution::NotMine);
    assert_eq!(resolution_of(Err(ENOMEM), None), Resolution::Failed);
    let mut worker = PolarisDevice::open();
    inner.register_va_space(&mut worker, space(BASE), 1).expect("register a space");
    let step = inner.uvm_handle_gpu_fault(hooked(BASE), 1);
    assert_eq!(step, HookStep::Done(UVM_POLARIS_FAULT_NOT_MINE));
    assert_eq!((inner.uvm.fast_matches, inner.uvm.unserviceable), (1, 1));

    // Memory that could be mapped at the address is left alone outside the window.
    let s = create(&mut inner, 1);
    let id = resident(&mut inner, s, 0, 1);
    let memory = PolarisRegisterBlockBackingArg {
        block_id: id,
        gpu_id: 0,
        rm_control_fd: 3,
        h_client: 8,
        h_memory: 9,
        length: BLOCK,
        ..Default::default()
    };
    inner.register_block_backing(memory).expect("register memory");
    let place = PolarisRegisterBlockMappingArg {
        block_id: id,
        gpu_id: 0,
        rm_client_token: 0xc1,
        va_space_token: 0xd1,
        base: BASE,
        length: BLOCK,
        ..Default::default()
    };
    inner.register_block_mapping(place).expect("register a mapping");
    let elsewhere = GpuFault { va_space_token: 0xd2, ..hooked(BASE) };
    let step = inner.uvm_handle_gpu_fault(elsewhere, 1);
    assert_eq!(step, HookStep::Done(UVM_POLARIS_FAULT_NOT_MINE));
    assert_eq!(inner.uvm.fast_misses, 2);
    assert!(matches!(inner.uvm_handle_gpu_fault(hooked(BASE), 1), HookStep::Install(_)));
}

#[test]
fn backing_and_probes() {
    let (mut inner, _dev) = ready();
    let mut worker = PolarisDevice::open();
    inner.register_va_space(&mut worker, space(BASE), 1).expect("register a space");
    let s = create(&mut inner, 4);
    let id = resident(&mut inner, s, 0, 1);
    let memory = PolarisRegisterBlockBackingArg {
        block_id: id,
        gpu_id: 0,
        rm_control_fd: 3,
        h_client: 8,
        h_memory: 9,
        length: BLOCK,
        ..Default::default()
    };
    let unknown = PolarisRegisterBlockBackingArg { block_id: 99, ..memory };
    assert_eq!(inner.register_block_backing(unknown), Err(ENOENT));
    assert_eq!(inner.register_block_backing(memory), Ok(()));
    let probe = PolarisProbeRmPhysArg { block_id: id, ..Default::default() };
    assert!(inner.probe_rm_phys(probe).is_err());
    let place = PolarisRegisterBlockMappingArg {
        block_id: id,
        gpu_id: 0,
        rm_client_token: 0xc1,
        va_space_token: 0xd1,
        base: BASE,
        length: BLOCK,
        ..Default::default()
    };
    inner.register_block_mapping(place).expect("register a mapping");
    inner.note_block_mapping_fault(0, BASE, 0x42);
    let (target, length) = inner.probe_rm_phys(probe).expect("a target");
    assert_eq!((target.gpu_va_space_ptr, target.h_memory, length), (0x42, 9, BLOCK));

    let seen = PhysProbeReply {
        page_size: 4096,
        phys_addr_count: 512,
        first_phys_addr: 1,
        last_phys_addr: 2,
        contiguous: 1,
        sysmem: 0,
        egm: 0,
        fabricmem: 0,
    };
    let shown = probe_rm_phys_reply(probe, length, 0, seen).expect("an answer");
    assert_eq!((shown.length, shown.page_size), (BLOCK, 4096));
    assert_eq!(shown.flags, POLARIS_RM_PHYS_FLAG_CONTIGUOUS);
    assert_eq!(probe_rm_phys_reply(probe, length, 5, seen), Err(5));

    let copy_probe = PolarisProbeRmCopyArg { block_id: id, ..Default::default() };
    let (_, n) = inner.probe_rm_copy(copy_probe).expect("a target");
    let checked = CopyProbeReply {
        page_size: 4096,
        phys_addr_count: 512,
        first_phys_addr: 1,
        last_phys_addr: 2,
        flags: 0,
        bytes_checked: n,
        first_mismatch_offset: u64::MAX,
        expected_byte: 0,
        actual_byte: 0,
    };
    let shown = probe_rm_copy_reply(copy_probe, n, 0, checked).expect("an answer");
    assert_eq!(shown.bytes_checked, n);

    let copy = PolarisRmCopyArg {
        block_id: id,
        length: BLOCK,
        user_cpu_addr: 0x1000,
        ..Default::default()
    };
    let (_, n) = inner.rm_copy(copy).expect("a target");
    assert_eq!(n, BLOCK);
    let copied = CopyReply {
        page_size: 4096,
        phys_addr_count: 512,
        first_phys_addr: 1,
        last_phys_addr: 2,
        flags: 0,
        bytes_copied: n,
    };
    assert_eq!(rm_copy_reply(copy, n, 0, copied).expect("an answer").bytes_copied, BLOCK);
    let long = PolarisRmCopyArg { length: 2 * BLOCK, ..copy };
    assert_eq!(inner.rm_copy(long), Err(EINVAL));

    // Memory that the copy names itself, for a block that is not back yet.
    inner.blocks[0].state = PolarisBlockState::ReloadPending;
    inner.blocks[0].clear_rm_backing();
    assert_eq!(inner.rm_copy(copy), Err(ENOENT));
    let fresh = PolarisRmCopyArg {
        rm_control_fd: 3,
        rm_h_client: 0xc,
        rm_h_memory: 0xd,
        direction: POLARIS_RM_COPY_FROM_CPU,
        length: 0,
        ..copy
    };
    let (target, n) = inner.rm_copy(fresh).expect("a target");
    assert_eq!((target.rm_control_fd, target.h_client, target.h_memory), (3, 0xc, 0xd));
    assert_eq!((target.gpu_va_space_ptr, n), (0x42, BLOCK));
    assert_eq!(inner.rm_copy(PolarisRmCopyArg { direction: 2, ..fresh }), Err(EINVAL));
    assert_eq!(inner.rm_copy(PolarisRmCopyArg { block_id: id + 1, ..fresh }), Err(ENOENT));
    assert_eq!(errno_of_helper(5), 5);
    assert_eq!(errno_of_helper(-5), EINVAL);
    assert_eq!(unmap_outcome(0), Ok(()));
}

// ─── Statistics ─────────────────────────────────────────────────────────────

#[test]
fn statistics_text() {
    let (mut inner, _dev) = ready();
    let s = create(&mut inner, 4);
    resident(&mut inner, s, 0, 1);
    assert!(inner.can_total());
    let (buf, n) = inner.stats_show(vec![0; 4096]);
    let text = String::from_utf8(buf[..n].to_vec()).expect("plain text");
    let lines: Vec<&str> = text.lines().collect();
    assert_eq!(lines[0], "sessions:       1");
    assert_eq!(lines[1], "blocks:         1");
    assert_eq!(lines[2], "  resident:     1");
    assert!(text.contains("policy:         0 (0=fifo,1=lru,2=phase_aware)\n"));
    assert!(text.contains("gpu_used_mib:   2\n"));
    assert!(text.contains("uvm_last_client:0x0\n"));
    assert!(text.ends_with("uvm_last_result:0\n"));
    let (least, none) = inner.stats_show(vec![7]);
    assert_eq!((least, none), (vec![0], 0));
    let (cut, m) = inner.stats_show(vec![0; 10]);
    assert!(m < 10);
    assert_eq!(&cut[..m], &text.as_bytes()[..m]);

    let totals = inner.get_global_stats(PolarisGetGlobalStatsArg::default());
    assert_eq!((totals.total_gpus, totals.total_sessions, totals.total_blocks), (1, 1, 1));
    assert_eq!((totals.used_gpu_bytes, totals.private_gpu_bytes), (BLOCK, BLOCK));
    assert_eq!(totals.shared_gpu_bytes, 0);
}
