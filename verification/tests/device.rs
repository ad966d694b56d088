//! The device's state machine, driven by a stand-in for the executor that
//! answers every decision with a handle made from the block's number.

use polaris::abi::{
    PolarisBlockGetStateArg, PolarisBlockReleaseArg, PolarisBlockReserveArg, PolarisBlockState,
    PolarisCompleteOperationArg, PolarisDecision, PolarisDecisionOp, PolarisGetDecisionArg,
    PolarisPhase, PolarisRegisterBlockMappingArg, PolarisRegisterGpuArg, PolarisRegisterVaRangeArg,
    PolarisRegisterVaSpaceArg, PolarisSessionBranchArg, PolarisSessionCreateArg,
    PolarisSessionDestroyArg, PolarisSessionGetStatsArg, PolarisSetPolicyArg, PolarisSpillBlockArg,
    PolarisUnregisterVaSpaceArg, POLARIS_REGISTER_GPU_FLAG_TRANSIENT,
    POLARIS_RESERVE_FLAG_DEFER_FAULT, POLARIS_RESERVE_FLAG_OVERWRITE,
};
use polaris::blocks::reserve_fault_outcome;
use polaris::device::PolarisDevice;
use polaris::errno::{ENOMEM, EPERM};
use polaris::fault::FaultStep;
use polaris::state::PolarisInner;
use std::collections::HashMap;

const MIB: u64 = 1024 * 1024;
const BLOCK_SIZE: u64 = 2 * MIB;
const FD: i32 = 7;

#[derive(Default)]
struct SeenOps {
    alloc: u32,
    free: u32,
    offload: u32,
    reload: u32,
    cow_break: u32,
    last_cow_src_handle: u64,
    last_cow_dst_vaddr: u64,
    last_free_src_handle: u64,
    last_free_block_id: u64,
}

struct Bench {
    inner: PolarisInner,
    dev: PolarisDevice,
    seen: SeenOps,
    rm_backing: bool,
    now: u64,
}

impl Bench {
    fn new(base: u64, length: u64) -> Bench {
        Bench::with_budget(base, length, 512 * MIB)
    }

    fn with_budget(base: u64, length: u64, budget_bytes: u64) -> Bench {
        let mut b = Bench {
            inner: PolarisInner::new(),
            dev: PolarisDevice::open(),
            seen: SeenOps::default(),
            rm_backing: false,
            now: 1_000_000,
        };
        let gpu = gpu_arg(budget_bytes, POLARIS_REGISTER_GPU_FLAG_TRANSIENT);
        b.inner.register_gpu(&mut b.dev, gpu).expect("register the GPU");
        let range = PolarisRegisterVaRangeArg {
            gpu_id: 0,
            base,
            length,
            block_size: BLOCK_SIZE,
            ..Default::default()
        };
        b.inner.register_va_range(&mut b.dev, range).expect("register the range");
        b
    }

    fn stat(&self, name: &str) -> u64 {
        *stats(&self.inner).get(name).expect("a known line")
    }

    fn create(&mut self) -> u64 {
        let arg = PolarisSessionCreateArg {
            home_gpu: 0,
            gpu_vas_bytes: BLOCK_SIZE,
            bytes_per_token: BLOCK_SIZE,
            priority: 5,
            ..Default::default()
        };
        self.inner.session_create(arg).expect("create a session").session_id
    }

    fn branch(&mut self, parent: u64) -> u64 {
        let arg = PolarisSessionBranchArg { parent_session_id: parent, ..Default::default() };
        self.inner.session_branch(arg).expect("branch a session").child_session_id
    }

    fn destroy(&mut self, session_id: u64) {
        let arg = PolarisSessionDestroyArg { session_id, ..Default::default() };
        self.inner.session_destroy(arg).expect("destroy a session");
        self.execute_all();
    }

    fn release(&mut self, session_id: u64) {
        let arg = PolarisBlockReleaseArg {
            session_id,
            token_start: 0,
            token_count: 1,
            ..Default::default()
        };
        self.inner.block_release(arg).expect("release a block");
        self.execute_all();
    }

    fn reserve(&mut self, session_id: u64, flags: u32) -> PolarisBlockReserveArg {
        let arg = PolarisBlockReserveArg {
            session_id,
            token_start: 0,
            token_count: 1,
            phase: PolarisPhase::Prefill.to_u32(),
            flags,
            ..Default::default()
        };
        let (reply, fault) = self.inner.block_reserve(arg).expect("reserve a block");
        if let Some(fault) = fault {
            let step = reserve_fault_outcome(self.inner.resolve_gpu_fault(fault, self.now));
            match step.expect("a fault that can be served") {
                FaultStep::Wait { block_id, .. } => {
                    self.execute_all();
                    self.inner.finish_gpu_fault(block_id, 1).expect("a served fault");
                }
                other => panic!("{other:?}"),
            }
        }
        reply
    }

    fn execute_all(&mut self) {
        loop {
            let batch = self.inner.get_decision(PolarisGetDecisionArg::default(), self.now);
            if batch.count == 0 {
                return;
            }
            for decision in batch.decisions.iter().take(batch.count as usize) {
                let arg = self.answer(decision);
                self.inner.complete_operation(arg, self.now).expect("complete an operation");
            }
        }
    }

    fn answer(&mut self, decision: &PolarisDecision) -> PolarisCompleteOperationArg {
        let mut arg = PolarisCompleteOperationArg {
            decision_id: decision.decision_id,
            generation: decision.generation,
            ..Default::default()
        };
        match PolarisDecisionOp::from_u32(decision.op).expect("a known operation") {
            PolarisDecisionOp::Alloc => {
                self.seen.alloc += 1;
                if self.rm_backing {
                    arg.rm_control_fd = FD;
                    arg.rm_h_client = 0xabc0_0000u32.wrapping_add(decision.block_id as u32);
                    arg.rm_h_memory = 0xdef0_0000u32.wrapping_add(decision.block_id as u32);
                    arg.rm_backing_length = decision.size_bytes;
                } else {
                    arg.output_handle = 0x1000_0000 + decision.block_id;
                }
            }
            PolarisDecisionOp::Free => {
                self.seen.free += 1;
                self.seen.last_free_src_handle = decision.src_handle;
                self.seen.last_free_block_id = decision.block_id;
            }
            PolarisDecisionOp::Offload => {
                self.seen.offload += 1;
                arg.output_cpu_addr = 0x2000_0000 + decision.block_id * BLOCK_SIZE;
            }
            PolarisDecisionOp::Reload => {
                self.seen.reload += 1;
                arg.output_handle = 0x3000_0000 + decision.block_id;
            }
            PolarisDecisionOp::CowBreak => {
                self.seen.cow_break += 1;
                self.seen.last_cow_src_handle = decision.src_handle;
                self.seen.last_cow_dst_vaddr = decision.dst_vaddr;
                arg.output_handle = 0x4000_0000 + decision.block_id;
            }
            other => panic!("unexpected decision {other:?}"),
        }
        arg
    }

    fn state(&self, session_id: u64, block_id: u64) -> PolarisBlockGetStateArg {
        let arg = PolarisBlockGetStateArg { session_id, block_id, ..Default::default() };
        self.inner.block_get_state(arg).expect("the state of a block")
    }

    fn num_blocks(&self, session_id: u64) -> u32 {
        let arg = PolarisSessionGetStatsArg { session_id, ..Default::default() };
        self.inner.session_get_stats(arg).expect("the counts of a session").num_blocks
    }
}

fn gpu_arg(budget_bytes: u64, flags: u32) -> PolarisRegisterGpuArg {
    PolarisRegisterGpuArg {
        gpu_id: 0,
        total_bytes: 16 * 1024 * MIB,
        budget_bytes,
        cpu_pool_bytes: 64 * MIB,
        _reserved: flags,
        ..Default::default()
    }
}

fn stats(inner: &PolarisInner) -> HashMap<String, u64> {
    let (buf, n) = inner.stats_show(vec![0; 4096]);
    let text = String::from_utf8(buf[..n].to_vec()).expect("plain text");
    text.lines()
        .filter_map(|line| {
            let (key, value) = line.split_once(':')?;
            let first = value.split_whitespace().next()?;
            Some((key.trim().to_string(), first.parse::<u64>().ok()?))
        })
        .collect()
}

fn va_space(client: u64, token: u64, managed_base: u64) -> PolarisRegisterVaSpaceArg {
    PolarisRegisterVaSpaceArg {
        gpu_id: 0,
        rm_client_token: client,
        va_space_token: token,
        managed_base,
        managed_length: BLOCK_SIZE,
        ..Default::default()
    }
}

fn unregistering(vas: &PolarisRegisterVaSpaceArg) -> PolarisUnregisterVaSpaceArg {
    PolarisUnregisterVaSpaceArg {
        gpu_id: vas.gpu_id,
        rm_client_token: vas.rm_client_token,
        va_space_token: vas.va_space_token,
        ..Default::default()
    }
}

fn mapping(block_id: u64, vas: &PolarisRegisterVaSpaceArg) -> PolarisRegisterBlockMappingArg {
    PolarisRegisterBlockMappingArg {
        block_id,
        gpu_id: vas.gpu_id,
        rm_client_token: vas.rm_client_token,
        va_space_token: vas.va_space_token,
        base: vas.managed_base,
        length: BLOCK_SIZE,
        ..Default::default()
    }
}

#[test]
fn spill_block_queues_offload_and_reload_decisions() {
    let mut b = Bench::new(0x1000_0000_0000, 4 * BLOCK_SIZE);
    let session = b.create();
    let reserve = b.reserve(session, 0);
    assert_ne!(reserve.block_id, 0);
    assert_ne!(reserve.gpu_vaddr, 0);
    assert_eq!(b.state(session, reserve.block_id).state, PolarisBlockState::Resident.to_u32());

    let arg = PolarisSpillBlockArg { block_id: reserve.block_id, ..Default::default() };
    let decision_id = b.inner.spill_block(arg).expect("spill a block");
    assert_ne!(decision_id, 0);
    b.execute_all();
    assert_eq!(b.state(session, reserve.block_id).state, PolarisBlockState::CpuOffloaded.to_u32());

    let reload = b.reserve(session, POLARIS_RESERVE_FLAG_OVERWRITE);
    assert_eq!(reload.block_id, reserve.block_id);
    assert_eq!(reload.gpu_vaddr, reserve.gpu_vaddr);
    assert_eq!(b.state(session, reserve.block_id).state, PolarisBlockState::Resident.to_u32());

    assert_eq!(b.seen.alloc, 1);
    assert_eq!(b.seen.offload, 1);
    assert_eq!(b.seen.reload, 1);

    b.destroy(session);
    assert!(b.seen.free >= 1);
}

#[test]
fn block_release_queues_free_for_resident_block() {
    let mut b = Bench::new(0x1200_0000_0000, 4 * BLOCK_SIZE);
    let session = b.create();
    let reserve = b.reserve(session, 0);
    assert_eq!(b.state(session, reserve.block_id).state, PolarisBlockState::Resident.to_u32());
    b.release(session);
    assert_eq!(b.seen.free, 1);
    assert_eq!(b.seen.last_free_src_handle, 0x1000_0000 + reserve.block_id);
    assert_eq!(b.stat("blocks"), 0);
    b.destroy(session);
}

#[test]
fn block_release_queues_free_for_rm_backed_block_without_phys_handle() {
    let mut b = Bench::new(0x1300_0000_0000, 4 * BLOCK_SIZE);
    b.rm_backing = true;
    let session = b.create();
    let reserve = b.reserve(session, 0);
    assert_eq!(b.state(session, reserve.block_id).state, PolarisBlockState::Resident.to_u32());
    b.release(session);
    assert_eq!(b.seen.free, 1);
    assert_eq!(b.seen.last_free_block_id, reserve.block_id);
    assert_eq!(b.stat("blocks"), 0);
    b.destroy(session);
}

#[test]
fn clean_polarisd_shutdown_reaps_inserted_gpu() {
    let mut inner = PolarisInner::new();
    let mut daemon = PolarisDevice::open();
    inner.register_gpu(&mut daemon, gpu_arg(512 * MIB, 0)).expect("register the GPU");
    assert_eq!(stats(&inner)["daemon"], 1);
    assert!(stats(&inner)["gpus"] >= 1);

    inner.close(daemon);
    assert_eq!(stats(&inner)["daemon"], 0);
    assert_eq!(stats(&inner)["gpus"], 0);
    assert_eq!(stats(&inner)["gpu_total_mib"], 0);
    assert_eq!(stats(&inner)["gpu_budget_mib"], 0);
    assert_eq!(stats(&inner)["cpu_pool_mib"], 0);
}

#[test]
fn transient_gpu_reregister_does_not_reap_daemon_gpu() {
    let mut inner = PolarisInner::new();
    let mut daemon = PolarisDevice::open();
    let gpu = PolarisRegisterGpuArg {
        gpu_id: 0,
        total_bytes: 80 * 1024 * MIB,
        budget_bytes: 60 * 1024 * MIB,
        cpu_pool_bytes: 4096 * MIB,
        ..Default::default()
    };
    inner.register_gpu(&mut daemon, gpu).expect("register the GPU");
    let before = stats(&inner);
    assert_eq!(before["gpus"], 1);

    let mut shim = PolarisDevice::open();
    let again = gpu_arg(512 * MIB, POLARIS_REGISTER_GPU_FLAG_TRANSIENT);
    inner.register_gpu(&mut shim, again).expect("register the GPU again");
    let during = stats(&inner);
    assert_eq!(during["gpus"], 1);
    assert_eq!(during["gpu_total_mib"], before["gpu_total_mib"]);
    assert_eq!(during["gpu_budget_mib"], before["gpu_budget_mib"]);
    assert_eq!(during["cpu_pool_mib"], before["cpu_pool_mib"]);

    inner.close(shim);
    let after = stats(&inner);
    assert_eq!(after["daemon"], 1);
    assert_eq!(after["gpus"], 1);
    assert_eq!(after["gpu_total_mib"], before["gpu_total_mib"]);
    assert_eq!(after["gpu_budget_mib"], before["gpu_budget_mib"]);
    assert_eq!(after["cpu_pool_mib"], before["cpu_pool_mib"]);
}

#[test]
fn session_destroy_queues_free_for_rm_backed_block_without_phys_handle() {
    let mut b = Bench::new(0x1400_0000_0000, 4 * BLOCK_SIZE);
    b.rm_backing = true;
    let session = b.create();
    let reserve = b.reserve(session, 0);
    assert_eq!(b.state(session, reserve.block_id).state, PolarisBlockState::Resident.to_u32());
    b.destroy(session);
    assert_eq!(b.seen.free, 1);
    assert_eq!(b.seen.last_free_block_id, reserve.block_id);
    assert_eq!(b.stat("blocks"), 0);
    assert_eq!(b.stat("block_mappings"), 0);
}

#[test]
fn reserve_under_budget_pressure_queues_offload_before_alloc() {
    let mut b = Bench::with_budget(0x1800_0000_0000, 8 * BLOCK_SIZE, BLOCK_SIZE);
    let policy = PolarisSetPolicyArg { policy: 0, ..Default::default() };
    b.inner.set_policy(policy).expect("set the policy");

    let first_session = b.create();
    let first = b.reserve(first_session, 0);
    assert_eq!(b.state(first_session, first.block_id).state, PolarisBlockState::Resident.to_u32());

    let second_session = b.create();
    let second = b.reserve(second_session, 0);
    assert_eq!(
        b.state(first_session, first.block_id).state,
        PolarisBlockState::CpuOffloaded.to_u32()
    );
    assert_eq!(
        b.state(second_session, second.block_id).state,
        PolarisBlockState::Resident.to_u32()
    );
    assert_eq!(b.seen.alloc, 2);
    assert_eq!(b.seen.offload, 1);

    b.destroy(second_session);
    b.destroy(first_session);
    assert!(b.seen.free >= 1);
}

#[test]
fn branch_overwrite_queues_cow_break_for_child_session() {
    let mut b = Bench::new(0x2000_0000_0000, 8 * BLOCK_SIZE);
    let parent = b.create();
    let parent_reserve = b.reserve(parent, 0);
    let parent_state = b.state(parent, parent_reserve.block_id);
    assert_eq!(parent_state.state, PolarisBlockState::Resident.to_u32());
    assert_eq!(parent_state.refcount, 1);

    let child = b.branch(parent);
    assert_ne!(child, 0);
    assert_eq!(b.state(parent, parent_reserve.block_id).refcount, 2);
    let child_shared = b.state(child, parent_reserve.block_id);
    assert_eq!(child_shared.block_id, parent_reserve.block_id);
    assert_eq!(child_shared.refcount, 2);

    let child_overwrite = b.reserve(child, POLARIS_RESERVE_FLAG_OVERWRITE);
    assert_ne!(child_overwrite.block_id, 0);
    assert_ne!(child_overwrite.block_id, parent_reserve.block_id);
    assert_ne!(child_overwrite.gpu_vaddr, parent_reserve.gpu_vaddr);
    assert_eq!(
        b.state(child, child_overwrite.block_id).state,
        PolarisBlockState::Resident.to_u32()
    );

    assert_eq!(b.state(parent, parent_reserve.block_id).refcount, 1);
    let child_after = b.state(child, child_overwrite.block_id);
    assert_eq!(child_after.block_id, child_overwrite.block_id);
    assert_eq!(child_after.refcount, 1);
    assert_eq!(child_after.gpu_vaddr, child_overwrite.gpu_vaddr);
    assert_eq!(b.num_blocks(child), 1);

    assert_eq!(b.seen.alloc, 1);
    assert_eq!(b.seen.cow_break, 1);
    assert_eq!(b.seen.last_cow_src_handle, 0x1000_0000 + parent_reserve.block_id);
    assert_eq!(b.seen.last_cow_dst_vaddr, child_overwrite.gpu_vaddr);

    b.destroy(child);
    b.destroy(parent);
    assert!(b.seen.free >= 2);
}

#[test]
fn unregister_vaspace_reaps_only_that_workers_block_mappings() {
    let mut b = Bench::new(0x3000_0000_0000, 8 * BLOCK_SIZE);
    let mut worker_a = PolarisDevice::open();
    let mut worker_b = PolarisDevice::open();
    let session = b.create();
    let reserve = b.reserve(session, POLARIS_RESERVE_FLAG_DEFER_FAULT);
    assert_ne!(reserve.block_id, 0);
    assert_eq!(b.state(session, reserve.block_id).state, PolarisBlockState::Unmapped.to_u32());

    let vas_a = va_space(0xabc0_0001, 0xdef0_0001, 0x4100_0000_0000);
    b.inner.register_va_space(&mut worker_a, vas_a, 11).expect("register space A");
    let vas_b = va_space(0xabc0_0002, 0xdef0_0002, 0x4200_0000_0000);
    b.inner.register_va_space(&mut worker_b, vas_b, 11).expect("register space B");
    for vas in [vas_a, vas_b] {
        b.inner.register_block_mapping(mapping(reserve.block_id, &vas)).expect("register a mapping");
    }
    assert_eq!(b.stat("v4_va_spaces"), 2);
    assert_eq!(b.stat("v4_worker_pids"), 2);
    assert_eq!(b.stat("block_mappings"), 2);

    let unregister_a = unregistering(&vas_a);
    assert_eq!(b.inner.unregister_va_space(&mut worker_b, unregister_a), Err(EPERM));
    assert_eq!(b.stat("v4_va_spaces"), 2);
    assert_eq!(b.stat("v4_worker_pids"), 2);
    assert_eq!(b.stat("block_mappings"), 2);

    b.inner.unregister_va_space(&mut worker_a, unregister_a).expect("unregister space A");
    assert_eq!(b.stat("v4_va_spaces"), 1);
    assert_eq!(b.stat("v4_worker_pids"), 1);
    assert_eq!(b.stat("block_mappings"), 1);

    b.inner.close(worker_b);
    assert_eq!(b.stat("v4_va_spaces"), 0);
    assert_eq!(b.stat("v4_worker_pids"), 0);
    assert_eq!(b.stat("block_mappings"), 0);
    b.destroy(session);
}

#[test]
fn failed_vaspace_fast_slot_registration_does_not_leave_authoritative_entry() {
    let mut b = Bench::new(0x3900_0000_0000, 8 * BLOCK_SIZE);
    let mut workers = Vec::new();
    for idx in 0..16u64 {
        let mut worker = PolarisDevice::open();
        let vas = va_space(
            0x3900_0000 + idx,
            0x4900_0000 + idx,
            0x4a00_0000_0000 + idx * BLOCK_SIZE,
        );
        b.inner.register_va_space(&mut worker, vas, 12).expect("fill a slot");
        workers.push(worker);
    }
    assert_eq!(b.stat("v4_va_spaces"), 16);
    assert_eq!(b.stat("v4_worker_pids"), 16);

    let mut overflow_worker = PolarisDevice::open();
    let overflow = va_space(0x3900_1000, 0x4900_1000, 0x4b00_0000_0000);
    let refused = b.inner.register_va_space(&mut overflow_worker, overflow, 12);
    assert_eq!(refused, Err(ENOMEM));
    assert_eq!(b.stat("v4_va_spaces"), 16);
    assert_eq!(b.stat("v4_worker_pids"), 16);

    b.inner.close(overflow_worker);
    assert_eq!(b.stat("v4_va_spaces"), 16);
    assert_eq!(b.stat("v4_worker_pids"), 16);

    for worker in workers {
        b.inner.close(worker);
    }
    assert_eq!(b.stat("v4_va_spaces"), 0);
    assert_eq!(b.stat("v4_worker_pids"), 0);
}

#[test]
fn worker_process_exit_reaps_vaspace_and_block_mapping() {
    let mut b = Bench::new(0x4a00_0000_0000, 4 * BLOCK_SIZE);
    let session = b.create();
    let reserve = b.reserve(session, POLARIS_RESERVE_FLAG_DEFER_FAULT);
    assert_ne!(reserve.block_id, 0);

    let mut child = PolarisDevice::open();
    let vas = va_space(2864705793, 3736076545, 81363860496384);
    b.inner.register_va_space(&mut child, vas, 99).expect("register a space");
    b.inner.register_block_mapping(mapping(reserve.block_id, &vas)).expect("register a mapping");
    assert_eq!(b.stat("v4_va_spaces"), 1);
    assert_eq!(b.stat("block_mappings"), 1);

    b.inner.close(child);
    assert_eq!(b.stat("v4_va_spaces"), 0);
    assert_eq!(b.stat("block_mappings"), 0);
    b.destroy(session);
}

#[test]
fn session_destroy_reaps_mappings_for_removed_deferred_block() {
    let mut b = Bench::new(0x5000_0000_0000, 4 * BLOCK_SIZE);
    let mut worker = PolarisDevice::open();
    let session = b.create();
    let reserve = b.reserve(session, POLARIS_RESERVE_FLAG_DEFER_FAULT);
    assert_ne!(reserve.block_id, 0);
    let vas = va_space(0xabc0_0101, 0xdef0_0101, 0x5100_0000_0000);
    b.inner.register_va_space(&mut worker, vas, 1).expect("register a space");
    b.inner.register_block_mapping(mapping(reserve.block_id, &vas)).expect("register a mapping");
    assert_eq!(b.stat("block_mappings"), 1);
    b.destroy(session);
    assert_eq!(b.stat("blocks"), 0);
    assert_eq!(b.stat("block_mappings"), 0);
}

#[test]
fn block_release_reaps_mappings_for_removed_deferred_block() {
    let mut b = Bench::new(0x6000_0000_0000, 4 * BLOCK_SIZE);
    let mut worker = PolarisDevice::open();
    let session = b.create();
    let reserve = b.reserve(session, POLARIS_RESERVE_FLAG_DEFER_FAULT);
    assert_ne!(reserve.block_id, 0);
    let vas = va_space(0xabc0_0201, 0xdef0_0201, 0x6100_0000_0000);
    b.inner.register_va_space(&mut worker, vas, 1).expect("register a space");
    b.inner.register_block_mapping(mapping(reserve.block_id, &vas)).expect("register a mapping");
    assert_eq!(b.stat("block_mappings"), 1);
    b.release(session);
    assert_eq!(b.stat("blocks"), 0);
    assert_eq!(b.stat("block_mappings"), 0);
    b.destroy(session);
}

#[test]
fn child_block_release_decrements_inherited_shared_block() {
    let mut b = Bench::new(0x7000_0000_0000, 4 * BLOCK_SIZE);
    let parent = b.create();
    let reserve = b.reserve(parent, POLARIS_RESERVE_FLAG_DEFER_FAULT);
    let child = b.branch(parent);
    assert_eq!(b.state(parent, reserve.block_id).refcount, 2);
    b.release(child);
    let parent_state = b.state(parent, reserve.block_id);
    assert_eq!(parent_state.block_id, reserve.block_id);
    assert_eq!(parent_state.refcount, 1);
    assert_eq!(parent_state.state, PolarisBlockState::Unmapped.to_u32());
    assert_eq!(b.num_blocks(child), 0);
    assert_eq!(b.stat("blocks"), 1);
    b.destroy(child);
    b.destroy(parent);
}

#[test]
fn child_block_release_reaps_only_child_mapping_for_shared_block() {
    let mut b = Bench::new(0x8000_0000_0000, 8 * BLOCK_SIZE);
    let mut parent_worker = PolarisDevice::open();
    let mut child_worker = PolarisDevice::open();
    let parent = b.create();
    let reserve = b.reserve(parent, POLARIS_RESERVE_FLAG_DEFER_FAULT);
    let child = b.branch(parent);
    let parent_vas = va_space(0xabc0_0301, 0xdef0_0301, reserve.gpu_vaddr);
    b.inner.register_va_space(&mut parent_worker, parent_vas, 1).expect("the parent's space");
    let child_vas = va_space(0xabc0_0302, 0xdef0_0302, reserve.gpu_vaddr + BLOCK_SIZE);
    b.inner.register_va_space(&mut child_worker, child_vas, 1).expect("the child's space");
    for vas in [parent_vas, child_vas] {
        b.inner.register_block_mapping(mapping(reserve.block_id, &vas)).expect("register a mapping");
    }
    assert_eq!(b.stat("block_mappings"), 2);

    b.release(child);
    assert_eq!(b.state(parent, reserve.block_id).refcount, 1);
    assert_eq!(b.stat("block_mappings"), 1);

    b.inner
        .unregister_va_space(&mut parent_worker, unregistering(&parent_vas))
        .expect("unregister the parent's space");
    assert_eq!(b.stat("block_mappings"), 0);
    b.destroy(child);
    b.destroy(parent);
}

#[test]
fn child_session_destroy_reaps_only_child_mapping_for_shared_block() {
    let mut b = Bench::new(0x9000_0000_0000, 8 * BLOCK_SIZE);
    let mut parent_worker = PolarisDevice::open();
    let mut child_worker = PolarisDevice::open();
    let parent = b.create();
    let reserve = b.reserve(parent, POLARIS_RESERVE_FLAG_DEFER_FAULT);
    let child = b.branch(parent);
    let parent_vas = va_space(0xabc0_0401, 0xdef0_0401, reserve.gpu_vaddr);
    b.inner.register_va_space(&mut parent_worker, parent_vas, 1).expect("the parent's space");
    let child_vas = va_space(0xabc0_0402, 0xdef0_0402, reserve.gpu_vaddr + BLOCK_SIZE);
    b.inner.register_va_space(&mut child_worker, child_vas, 1).expect("the child's space");
    for vas in [parent_vas, child_vas] {
        b.inner.register_block_mapping(mapping(reserve.block_id, &vas)).expect("register a mapping");
    }
    assert_eq!(b.stat("block_mappings"), 2);

    b.destroy(child);
    assert_eq!(b.state(parent, reserve.block_id).refcount, 1);
    assert_eq!(b.stat("block_mappings"), 1);

    b.inner
        .unregister_va_space(&mut parent_worker, unregistering(&parent_vas))
        .expect("unregister the parent's space");
    assert_eq!(b.stat("block_mappings"), 0);
    b.destroy(parent);
}
