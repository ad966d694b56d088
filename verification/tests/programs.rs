//! The programs around the device: settings, the daemon's loop, the control
//! tool, the runtime's KV memory, and the workloads.

use polaris::abi::{
    PolarisBlockReserveArg, PolarisDecision, PolarisDecisionOp, PolarisGetDecisionArg,
    PolarisGetGlobalStatsArg, PolarisRegisterGpuArg, PolarisRegisterVaRangeArg,
    PolarisSessionBranchArg, PolarisSessionCreateArg, PolarisSessionDestroyArg,
    PolarisSessionGetStatsArg, POLARIS_RESERVE_FLAG_OVERWRITE, POLARIS_RM_COPY_TO_CPU,
};
use polaris::cpu_pool::CpuPool;
use polaris::ctl::{cmd_create_session, cmd_destroy_session, cmd_stats, list_row};
use polaris::daemon::{
    complete_operation, copy_rm_offload, cpu_pool_size, finalize_rm_offload, gpu_budget,
    prepare_rm_offload, register_gpu_arg, register_va_range_arg, rm_options, test_error,
    va_reserve_size, worker_count, AsyncOffloadPool, DecisionLoop, LoopAction, LoopEvent,
    OffloadDone, DAEMON_BLOCK_SIZE,
};
use polaris::device::PolarisDevice;
use polaris::errno::{EINVAL, EIO, ENODEV};
use polaris::executor::{After, DeviceCall, ExecutionResult, Reply};
use polaris::fault::FaultStep;
use polaris::gpu::GpuState;
use polaris::kv::{
    decisions_in_batch, error_code, sanitize, KvAllocationInfo, KvError, KvStep,
    PolarisRuntimeConfig, RuntimeConfig, RuntimeInner,
};
use polaris::lifecycle::{read_kernel_stats, reconcile, KernelStats, Notice};
use polaris::offload::Step;
use polaris::parse::{bytes, chars_of, enabled, enabled_exactly, parse_i32, parse_u64};
use polaris::rm::{RmBackend, RmOptions, RmReply, DEFAULT_PRESSURE_RANGE_BASE};
use polaris::runtime::{execute_decision, resume_decision};
use polaris::state::PolarisInner;
use polaris::workload::{
    after_answer, decode_rounds, decode_step, div_ceil, goes_on, header, record, run_decode_loop,
    run_flat, session_addresses, CowTrial, Next, TrialOp, TrialReply, TrialResult, WorkOp,
    Workload,
};

const MIB: u64 = 1024 * 1024;
const BLOCK: u64 = 2 * MIB;

fn text(bytes: &[u8]) -> String {
    String::from_utf8(bytes.to_vec()).expect("plain text")
}

// ─── Settings ───────────────────────────────────────────────────────────────

#[test]
fn numbers_are_read_as_they_are_written() {
    assert_eq!(parse_u64(&chars_of("0")), Some(0));
    assert_eq!(parse_u64(&chars_of("18446744073709551615")), Some(u64::MAX));
    assert_eq!(parse_u64(&chars_of("18446744073709551616")), None);
    assert_eq!(parse_u64(&chars_of("+7")), Some(7));
    assert_eq!(parse_u64(&chars_of("-7")), None);
    assert_eq!(parse_u64(&chars_of("")), None);
    assert_eq!(parse_u64(&chars_of("12a")), None);
    assert_eq!(parse_i32(&chars_of("-12")), Some(-12));
    assert_eq!(parse_i32(&chars_of("2147483647")), Some(i32::MAX));
    assert_eq!(parse_i32(&chars_of("2147483648")), None);
    assert_eq!(parse_i32(&chars_of("-2147483648")), Some(i32::MIN));
    assert_eq!(parse_i32(&chars_of("-")), None);
}

#[test]
fn switches_and_sizes() {
    assert!(enabled(Some("1")));
    assert!(enabled(Some("TRUE")));
    assert!(!enabled(Some("0")));
    assert!(!enabled(None));
    assert!(enabled_exactly(Some("1")));
    assert!(!enabled(Some(" No ")));
    assert!(enabled_exactly(Some(" no ")));
    assert!(!enabled_exactly(Some("FALSE")));
    assert!(!enabled_exactly(Some("")));
    assert_eq!(bytes(Some("4096")), Some(4096));
    assert_eq!(bytes(None), None);
    assert_eq!(va_reserve_size(None), 64 << 30);
    assert_eq!(va_reserve_size(Some("8")), 8 << 30);
    assert_eq!(va_reserve_size(Some("many")), 64 << 30);
    assert_eq!(gpu_budget(None, 1000), 750);
    assert_eq!(gpu_budget(Some("512"), 1000), 512);
    assert_eq!(cpu_pool_size(None), 4 << 30);
    assert_eq!(cpu_pool_size(Some("65536")), 65536);
    assert_eq!(test_error(None), 0);
    assert_eq!(test_error(Some("5")), 5);
    assert_eq!(worker_count(None), 4);
    assert_eq!(worker_count(Some("9")), 9);
    assert_eq!(worker_count(Some("0")), 4);
    let options = rm_options(Some("1"), None, None);
    assert_eq!(
        options,
        RmOptions {
            force_contiguous: true,
            pressure_outside_fb_range: false,
            pressure_range_base: DEFAULT_PRESSURE_RANGE_BASE,
        }
    );
    assert_eq!(DAEMON_BLOCK_SIZE, 524_288 * 16);
}

#[test]
fn registration_records() {
    let gpu = register_gpu_arg(3, 100, 75, 10);
    assert_eq!(gpu.gpu_id, 3);
    assert_eq!((gpu.total_bytes, gpu.budget_bytes, gpu.cpu_pool_bytes), (100, 75, 10));
    assert_eq!(gpu._reserved, 0);
    let range = register_va_range_arg(3, 0x1000, 0x2000, 0x100);
    assert_eq!(range.range_id, 0);
    assert_eq!((range.base, range.length, range.block_size), (0x1000, 0x2000, 0x100));
    let result = ExecutionResult { result: -5, output_handle: 7, ..Default::default() };
    let done = complete_operation(11, 12, &result);
    assert_eq!((done.decision_id, done.generation, done.result), (11, 12, -5));
    assert_eq!(done.output_handle, 7);
}

// ─── The daemon ─────────────────────────────────────────────────────────────

fn batch(ops: &[PolarisDecisionOp]) -> PolarisGetDecisionArg {
    let mut arg = PolarisGetDecisionArg { count: ops.len() as u32, ..Default::default() };
    for (i, op) in ops.iter().enumerate() {
        arg.decisions[i] = PolarisDecision {
            decision_id: i as u64 + 1,
            op: op.to_u32(),
            ..Default::default()
        };
    }
    arg
}

#[test]
fn loop_deals_with_every_decision_in_order() {
    let mut l = DecisionLoop::new(PolarisGetDecisionArg::default(), true, 0);
    assert_eq!(l.action(), LoopAction::Drain);
    l.note(LoopEvent::Done, false);
    assert_eq!(l.action(), LoopAction::Poll);
    let arg = batch(&[
        PolarisDecisionOp::Alloc,
        PolarisDecisionOp::Offload,
        PolarisDecisionOp::Offload,
        PolarisDecisionOp::Free,
    ]);
    l.note(LoopEvent::Polled(arg), false);
    assert_eq!(l.action(), LoopAction::Execute(arg.decisions[0]));
    l.note(LoopEvent::Done, false);
    assert_eq!(l.action(), LoopAction::Offer(arg.decisions[1]));
    l.note(LoopEvent::Offered(true), true);
    assert_eq!(l.action(), LoopAction::WaitForCompletion);
    l.note(LoopEvent::Done, false);
    assert_eq!(l.action(), LoopAction::Offer(arg.decisions[2]));
    l.note(LoopEvent::Offered(false), false);
    assert_eq!(l.action(), LoopAction::Execute(arg.decisions[2]));
    l.note(LoopEvent::Done, false);
    assert_eq!(l.action(), LoopAction::Execute(arg.decisions[3]));
    l.note(LoopEvent::Done, false);
    assert_eq!(l.action(), LoopAction::Drain);
    l.note(LoopEvent::Done, false);
    l.note(LoopEvent::PollFailed(EIO), false);
    assert_eq!(l.action(), LoopAction::Drain);
    l.note(LoopEvent::Done, false);
    l.note(LoopEvent::PollFailed(ENODEV), false);
    assert_eq!(l.action(), LoopAction::Shutdown);
    l.note(LoopEvent::Done, false);
    assert_eq!(l.action(), LoopAction::Exit);
}

#[test]
fn loop_without_workers_executes_offloads_itself() {
    let mut l = DecisionLoop::new(PolarisGetDecisionArg::default(), false, 0);
    assert_eq!(l.action(), LoopAction::Poll);
    let arg = batch(&[PolarisDecisionOp::Offload]);
    l.note(LoopEvent::Polled(arg), false);
    assert_eq!(l.action(), LoopAction::Execute(arg.decisions[0]));
    l.note(LoopEvent::Done, false);
    assert_eq!(l.action(), LoopAction::Poll);
    l.note(LoopEvent::PollFailed(ENODEV), false);
    assert_eq!(l.action(), LoopAction::Exit);

    let mut tried = DecisionLoop::new(PolarisGetDecisionArg::default(), true, 1);
    tried.note(LoopEvent::Done, false);
    tried.note(LoopEvent::Polled(arg), false);
    assert_eq!(tried.action(), LoopAction::Execute(arg.decisions[0]));
}

#[test]
fn workers_take_two_copies_each() {
    let mut pool = AsyncOffloadPool::new(2);
    for n in 0..4 {
        assert!(!pool.is_full());
        assert_eq!(pool.outstanding(), n);
        pool.submit(true);
    }
    assert!(pool.is_full());
    pool.drain_completed(3);
    assert_eq!(pool.outstanding(), 1);
    pool.submit(false);
    assert_eq!(pool.outstanding(), 1);
    assert_eq!(AsyncOffloadPool::new(0).max_outstanding, 2);
}

#[test]
fn background_offload_is_prepared_copied_and_finished() {
    let options = RmOptions {
        force_contiguous: false,
        pressure_outside_fb_range: false,
        pressure_range_base: 0,
    };
    let mut gpu = GpuState::new(0, 0, 0x7000_0000_0000, 8 * BLOCK, BLOCK, 0, 0, 8 * BLOCK, 0x1000_0000);
    let mut cpu = CpuPool::new(0x1000_0000, 8 * BLOCK);
    let mut backend = RmBackend::with_handles(5, 0xc1, 0xd1, 0xe1, options);
    let reply = RmReply { ret: 0, status: 0, h_object_new: 9, h_client: 0, size: BLOCK, offset: 0 };
    backend.note_allocation(1, &reply).expect("memory");
    gpu.used_bytes = BLOCK;
    let dec = PolarisDecision {
        decision_id: 4,
        generation: 2,
        op: PolarisDecisionOp::Offload.to_u32(),
        block_id: 1,
        size_bytes: BLOCK,
        ..Default::default()
    };
    let job = prepare_rm_offload(&dec, &gpu, &mut cpu, &backend).expect("a job");
    assert_eq!((job.decision_id, job.generation, job.block_id), (4, 2, 1));
    assert_eq!((job.size, job.cpu_addr), (BLOCK, 0x1000_0000));
    let copy = copy_rm_offload(&job);
    assert_eq!((copy.block_id, copy.length, copy.user_cpu_addr), (1, BLOCK, 0x1000_0000));
    assert_eq!(copy.direction, POLARIS_RM_COPY_TO_CPU);

    let short = OffloadDone { job, copy_result: 0, bytes_copied: BLOCK - 1 };
    match finalize_rm_offload(&short, &mut gpu, &mut cpu, &mut backend) {
        Step::Finish { result, .. } => assert_eq!(result.result, -EIO),
        Step::Ask { .. } => panic!("a short copy is a failure"),
    }
    assert_eq!(cpu.used_bytes(), 0);

    let job = prepare_rm_offload(&dec, &gpu, &mut cpu, &backend).expect("a job");
    let full = OffloadDone { job, copy_result: 0, bytes_copied: BLOCK };
    match finalize_rm_offload(&full, &mut gpu, &mut cpu, &mut backend) {
        Step::Ask { call: DeviceCall::RmFree { free }, .. } => assert_eq!(free.h_object_old, 9),
        other => panic!("{other:?}"),
    }
    let unknown = PolarisDecision { block_id: 2, ..dec };
    assert_eq!(prepare_rm_offload(&unknown, &gpu, &mut cpu, &backend), None);
}

#[test]
fn statistics_are_read_back_from_the_device() {
    let mut inner = PolarisInner::new();
    let mut dev = PolarisDevice::open();
    let gpu = PolarisRegisterGpuArg {
        total_bytes: 16384 * MIB,
        budget_bytes: 512 * MIB,
        cpu_pool_bytes: 64 * MIB,
        ..Default::default()
    };
    inner.register_gpu(&mut dev, gpu).expect("register the GPU");
    inner.session_create(PolarisSessionCreateArg::default()).expect("create a session");
    let (buf, n) = inner.stats_show(vec![0; 4096]);
    let stats = read_kernel_stats(&text(&buf[..n]));
    assert_eq!(
        stats,
        KernelStats {
            sessions: 1,
            gpus: 1,
            daemon_attached: 1,
            gpu_total_mib: 16384,
            cpu_pool_mib: 64,
            ..Default::default()
        }
    );
    let (notices, clean) = reconcile(&stats);
    assert_eq!(
        notices,
        vec![
            Notice::Attached(1),
            Notice::SessionsLeft(1),
            Notice::Blocks(0, 0, 0, 0),
            Notice::Memory(0, 16384),
        ]
    );
    assert!(!clean);
}

#[test]
fn a_clean_start_and_a_bad_one() {
    let fresh = KernelStats { daemon_attached: 1, ..Default::default() };
    assert!(reconcile(&fresh).1);
    let bad = KernelStats {
        blocks: 9,
        blocks_evicted: 2,
        blocks_offloaded: 3,
        gpus_unhealthy: 4,
        pending_decisions: 5,
        ..Default::default()
    };
    let (notices, clean) = reconcile(&bad);
    assert!(!clean);
    assert_eq!(
        notices,
        vec![
            Notice::NotAttached,
            Notice::DecisionsLeft(5),
            Notice::Evicted(2),
            Notice::Offloaded(3),
            Notice::Unhealthy(4),
            Notice::Blocks(9, 0, 3, 2),
            Notice::Memory(0, 0),
        ]
    );
    assert_eq!(read_kernel_stats("sessions: x\n blocks :  12 \nno colon"), KernelStats {
        blocks: 12,
        ..Default::default()
    });
}

// ─── The control tool ───────────────────────────────────────────────────────

#[test]
fn statistics_are_shown() {
    let arg = PolarisGetGlobalStatsArg {
        total_gpus: 1,
        total_sessions: 2,
        total_blocks: 3,
        blocks_resident: 4,
        blocks_offloaded: 5,
        blocks_evicted: 6,
        total_gpu_bytes: 7 * MIB,
        used_gpu_bytes: 8 * MIB,
        shared_gpu_bytes: 9 * MIB,
        private_gpu_bytes: 10 * MIB + 5,
        cpu_pool_total: 11 * MIB,
        cpu_pool_used: 12 * MIB,
        cow_break_count: 13,
        cow_copy_bytes: 14,
        ..Default::default()
    };
    let expected = "POLARIS Global Statistics\n\
                    =========================\n\
                    GPUs:              1\n\
                    Sessions:          2\n\
                    Blocks:            3\n  \
                      Resident:        4\n  \
                      Offloaded:       5\n  \
                      Evicted:         6\n\
                    GPU memory:\n  \
                      Total:           7 MiB\n  \
                      Used:            8 MiB\n  \
                      Shared:          9 MiB\n  \
                      Private:         10 MiB\n\
                    CPU pool:\n  \
                      Total:           11 MiB\n  \
                      Used:            12 MiB\n\
                    COW:\n  \
                      Break count:     13\n  \
                      Copy bytes:      14\n";
    assert_eq!(text(&cmd_stats(&arg)), expected);
}

#[test]
fn sessions_are_shown() {
    let info = PolarisSessionGetStatsArg {
        session_id: 4,
        home_gpu: 1,
        beam_width: 2,
        num_blocks: 3,
        total_bytes: 4096,
        ..Default::default()
    };
    assert_eq!(text(&list_row(4, &Ok(info))), "  id=4 gpu=1 beam=2 blocks=3 vas_bytes=4096\n");
    assert_eq!(text(&list_row(7, &Err(2))), "  id=7 (error fetching details: errno 2)\n");
    let create = cmd_create_session(1, 2, 3, 4, 5);
    assert_eq!((create.home_gpu, create.beam_width, create.gpu_vas_bytes), (1, 2, 3));
    assert_eq!((create.bytes_per_token, create.priority, create.session_id), (4, 5, 0));
    assert_eq!(cmd_destroy_session(9).session_id, 9);
}

// ─── KV memory ──────────────────────────────────────────────────────────────

fn runtime() -> RuntimeInner {
    let cfg = RuntimeConfig {
        gpu_id: 0,
        device_ordinal: 0,
        total_bytes: 16384 * MIB,
        budget_bytes: 512 * MIB,
        cpu_pool_bytes: 64 * MIB,
        va_reserve_bytes: 256 * MIB,
        block_size: BLOCK,
    };
    assert_eq!(cfg.sizes(BLOCK), (256 * MIB, 64 * MIB));
    let (gpu, range) = cfg.register_args(0x7000_0000_0000, 256 * MIB);
    assert_eq!((gpu.total_bytes, range.length), (16384 * MIB, 256 * MIB));
    RuntimeInner::new(&cfg, BLOCK, 0x7000_0000_0000, 256 * MIB, 0x1000_0000, 64 * MIB)
}

/// A driver that grants everything, but for the call at a place.
struct Grants {
    calls: Vec<DeviceCall>,
    fail_at: Option<usize>,
}

impl Grants {
    fn call(&mut self, call: &DeviceCall) -> Reply {
        let failed = self.fail_at == Some(self.calls.len());
        self.calls.push(*call);
        Reply {
            errno: if failed { 1 } else { 0 },
            handle: 0x100 + self.calls.len() as u64,
            bytes: 0,
            rm: RmReply { ret: 0, status: 0, h_object_new: 0, h_client: 0, size: 0, offset: 0 },
        }
    }

    fn run(&mut self, inner: &mut RuntimeInner, first: KvStep) -> Result<(), KvError> {
        let mut step = first;
        loop {
            match step {
                KvStep::Ask { call, run } => {
                    let reply = self.call(&call);
                    step = inner.resume_kv(run, &reply);
                }
                KvStep::Finish { after, result } => {
                    match after {
                        After::Nothing => {}
                        After::One(a) => {
                            self.call(&a);
                        }
                        After::Two(a, b) => {
                            self.call(&a);
                            self.call(&b);
                        }
                    }
                    return result;
                }
            }
        }
    }
}

#[test]
fn kv_memory_comes_and_goes() {
    let mut inner = runtime();
    assert_eq!(inner.info().va_base, 0x7000_0000_0000);
    assert_eq!(inner.info().exported().va_size, 256 * MIB);
    let all = inner.gpu.vas.free_bytes();
    assert_eq!(inner.alloc_kv(0, 0), Err(KvError::ZeroSize));
    let kv = inner.alloc_kv(3 * BLOCK - 1, 0).expect("KV memory");
    assert_eq!(
        kv,
        KvAllocationInfo {
            va: 0x7000_0000_0000,
            size: 3 * BLOCK,
            block_size: BLOCK,
            block_count: 3,
        }
    );
    assert_eq!(kv.exported().block_count, 3);

    let mut driver = Grants { calls: Vec::new(), fail_at: None };
    assert!(inner.can_map_kv(kv.va));
    let step = inner.map_kv_all(kv.va, true);
    assert_eq!(driver.run(&mut inner, step), Ok(()));
    assert_eq!(inner.gpu.used_bytes, 3 * BLOCK);
    assert!(inner.explicit_kv[&kv.va].handles.iter().all(|h| *h != 0));
    let handles = inner.explicit_kv[&kv.va].handles.clone();
    let mut down = Vec::new();
    for (i, &handle) in handles.iter().enumerate() {
        down.push(DeviceCall::UnmapMemory { vaddr: kv.va + i as u64 * BLOCK, size: BLOCK });
        down.push(DeviceCall::ReleasePhysical { handle });
    }
    assert_eq!(inner.cleanup(), down);

    let step = inner.unmap_kv(kv.va, true);
    assert_eq!(driver.run(&mut inner, step), Ok(()));
    assert_eq!(inner.gpu.used_bytes, 0);
    assert!(inner.explicit_kv[&kv.va].handles.iter().all(|h| *h == 0));
    assert!(inner.can_free_kv(kv.va));
    let step = inner.free_kv(kv.va, true);
    assert_eq!(driver.run(&mut inner, step), Ok(()));
    assert!(inner.explicit_kv.is_empty());
    assert_eq!(inner.gpu.vas.free_bytes(), all);

    let step = inner.free_kv(kv.va, true);
    assert_eq!(driver.run(&mut inner, step), Err(KvError::Unknown { va: kv.va }));
}

#[test]
fn blocks_and_kv_memory_lie_apart() {
    let base = 0x7000_0000_0000;
    let mut inner = runtime();
    let mut driver = Grants { calls: Vec::new(), fail_at: None };
    let first = inner.alloc_kv(2 * BLOCK, 0).expect("KV memory");
    for block_id in [9, 10] {
        let dec = PolarisDecision {
            op: PolarisDecisionOp::Alloc.to_u32(),
            block_id,
            size_bytes: BLOCK,
            ..Default::default()
        };
        let mut step = execute_decision(&dec, &mut inner.gpu, &mut inner.cpu_pool, true);
        while let Step::Ask { call, run } = step {
            let reply = driver.call(&call);
            step = resume_decision(run, &reply, &mut inner.gpu, &mut inner.cpu_pool);
        }
    }
    let second = inner.alloc_kv(BLOCK, 0).expect("KV memory");
    assert_eq!((first.va, first.size), (base, 2 * BLOCK));
    assert_eq!(inner.gpu.get_va_alloc(9).expect("addresses").vaddr, base + 2 * BLOCK);
    assert_eq!(inner.gpu.get_va_alloc(10).expect("addresses").vaddr, base + 3 * BLOCK);
    assert_eq!((second.va, second.size), (base + 4 * BLOCK, BLOCK));

    // What one gives back, the next takes, and nothing that is still held.
    let step = inner.free_kv(first.va, true);
    assert_eq!(driver.run(&mut inner, step), Ok(()));
    assert_eq!(inner.alloc_kv(3 * BLOCK, 0).expect("KV memory").va, base + 5 * BLOCK);
    assert_eq!(inner.alloc_kv(2 * BLOCK, 0).expect("KV memory").va, base);
    inner.gpu.remove_block(9);
    assert_eq!(inner.alloc_kv(BLOCK, 0).expect("KV memory").va, base + 2 * BLOCK);
}

#[test]
fn kv_failures_name_the_block() {
    let mut inner = runtime();
    let kv = inner.alloc_kv(2 * BLOCK, 0).expect("KV memory");
    let step = inner.map_kv_all(kv.va, false);
    let mut driver = Grants { calls: Vec::new(), fail_at: None };
    assert_eq!(driver.run(&mut inner, step), Err(KvError::Context));
    driver.fail_at = Some(3);
    let step = inner.map_kv_all(kv.va, true);
    let second = kv.va + BLOCK;
    assert_eq!(driver.run(&mut inner, step), Err(KvError::Create { block: 1, vaddr: second }));
    driver.fail_at = Some(driver.calls.len() + 1);
    let step = inner.map_kv_all(kv.va, true);
    assert_eq!(driver.run(&mut inner, step), Err(KvError::MapBlock { block: 1, vaddr: second }));
    driver.fail_at = Some(driver.calls.len());
    let step = inner.unmap_kv(kv.va, true);
    assert_eq!(driver.run(&mut inner, step), Err(KvError::UnmapBlock { block: 0, vaddr: kv.va }));
    let huge = inner.alloc_kv(1024 * MIB, 0);
    assert_eq!(huge, Err(KvError::Exhausted { size: 1024 * MIB, alignment: 0 }));
}

#[test]
fn kv_failures_in_words() {
    assert_eq!(text(&KvError::ZeroSize.text()), "KV allocation size must be non-zero");
    assert_eq!(
        text(&KvError::Unknown { va: 0xab }.text()),
        "unknown POLARIS KV allocation at 0xab"
    );
    assert_eq!(
        text(&KvError::Create { block: 1, vaddr: 0x10 }.text()),
        "POLARIS KV cuMemCreate block 1 at 0x10 failed: "
    );
    assert_eq!(
        text(&KvError::Release { block: 2, handle: 0x20 }.text()),
        "POLARIS KV release block 2 handle 0x20 failed: "
    );
    assert_eq!(
        text(&KvError::Exhausted { size: 5, alignment: 6 }.text()),
        "POLARIS KV VA pool exhausted: requested 5 bytes, alignment 6"
    );
    assert_eq!(text(&KvError::Context.text()), "cuCtxPushCurrent failed: ");
    assert_eq!(
        text(&KvError::MapBlock { block: 0, vaddr: 1 }.text()),
        "POLARIS KV map block 0 at 0x1 failed: "
    );
    assert_eq!(
        text(&KvError::UnmapBlock { block: 0, vaddr: 1 }.text()),
        "POLARIS KV unmap block 0 at 0x1 failed: "
    );
}

#[test]
fn numbers_and_texts_for_c() {
    assert_eq!(error_code(Some(22)), -22);
    assert_eq!(error_code(Some(-22)), -22);
    assert_eq!(error_code(None), -5);
    assert_eq!(sanitize(b"a\0b"), b"a b".to_vec());
    assert_eq!(decisions_in_batch(3), 3);
    assert_eq!(decisions_in_batch(99), 16);
    let c = PolarisRuntimeConfig {
        gpu_id: 1,
        device_ordinal: 2,
        total_bytes: 3,
        budget_bytes: 4,
        cpu_pool_bytes: 5,
        va_reserve_bytes: 6,
        block_size: 7,
        flags: 8,
    };
    assert_eq!(c.config().va_reserve_bytes, 6);
}

// ─── Workloads ──────────────────────────────────────────────────────────────

#[test]
fn decode_plan_covers_prompt_and_output() {
    assert_eq!(div_ceil(0, 16), 0);
    assert_eq!(div_ceil(16, 16), 1);
    assert_eq!(div_ceil(17, 16), 2);
    let plan = run_decode_loop(20, 5, 16, Some((0, 16)));
    let reserve = |token_start: u32, token_count: u32, overwrite: bool, decode: bool| {
        WorkOp::Reserve { token_start, token_count, overwrite, decode }
    };
    assert_eq!(
        plan,
        vec![
            reserve(0, 16, false, false),
            reserve(16, 4, false, false),
            reserve(20, 5, false, true),
            WorkOp::Touch { from: 0, count: 25 },
            reserve(0, 16, true, false),
        ]
    );
    assert_eq!(decode_step(20, 5, 16, 0), (plan[2], plan[3]));
    assert_eq!(
        run_flat(2, 16),
        vec![
            reserve(0, 16, false, false),
            reserve(16, 16, false, false),
            WorkOp::Touch { from: 0, count: 32 },
        ]
    );
    assert_eq!(session_addresses(4, 16, None), 4 * 16 * 524_288);
}

#[test]
fn workloads_stop_where_they_must() {
    let reserve =
        WorkOp::Reserve { token_start: 0, token_count: 16, overwrite: false, decode: true };
    let overwrite =
        WorkOp::Reserve { token_start: 0, token_count: 16, overwrite: true, decode: false };
    let touch = WorkOp::Touch { from: 0, count: 16 };
    for op in [reserve, overwrite, touch] {
        assert!(goes_on(op, 0));
    }
    assert!(!goes_on(reserve, -12));
    assert!(goes_on(overwrite, -12));
    assert!(!goes_on(touch, -2));

    let all =
        [Workload::DecodeLoop, Workload::Flat, Workload::BeamSearch, Workload::Concurrent];
    let failed = [Next::Stop, Next::EndSession, Next::GoOn, Next::PassOver];
    for (workload, next) in all.into_iter().zip(failed) {
        assert_eq!(after_answer(workload, reserve, 0), Next::GoOn);
        assert_eq!(after_answer(workload, reserve, -12), next);
        assert_eq!(after_answer(workload, overwrite, -12), Next::GoOn);
        assert_eq!(after_answer(workload, touch, -2), Next::Stop);
    }
}

#[test]
fn sessions_decode_in_turns() {
    let turns = decode_rounds(2, 20, 17, 16);
    let order: Vec<(u32, usize)> = turns.iter().map(|t| (t.step, t.session)).collect();
    assert_eq!(order, vec![(0, 0), (0, 1), (1, 0), (1, 1)]);
    assert_eq!((turns[3].reserve, turns[3].touch), decode_step(20, 17, 16, 1));
    assert!(decode_rounds(0, 20, 17, 16).is_empty());
    assert!(decode_rounds(3, 20, 0, 16).is_empty());
}

#[test]
fn trace_lines() {
    let h = text(&header());
    let r = text(&record(1, "reserve", 2, 3, 4, 5, 6, 7));
    assert_eq!(r, "1,reserve,2,3,4,5,6,7\n");
    assert_eq!(h.split(',').count(), r.split(',').count());
}

struct Bench {
    inner: PolarisInner,
    dev: PolarisDevice,
}

impl Bench {
    fn new() -> Bench {
        let mut b = Bench { inner: PolarisInner::new(), dev: PolarisDevice::open() };
        let gpu = PolarisRegisterGpuArg {
            total_bytes: 1 << 40,
            budget_bytes: 1 << 40,
            cpu_pool_bytes: 1 << 40,
            ..Default::default()
        };
        b.inner.register_gpu(&mut b.dev, gpu).expect("register the GPU");
        let range = PolarisRegisterVaRangeArg {
            base: 1 << 44,
            length: 1 << 42,
            block_size: DAEMON_BLOCK_SIZE,
            ..Default::default()
        };
        b.inner.register_va_range(&mut b.dev, range).expect("register the range");
        b
    }

    fn serve(&mut self) {
        loop {
            let batch = self.inner.get_decision(PolarisGetDecisionArg::default(), 1);
            if batch.count == 0 {
                return;
            }
            for d in batch.decisions.iter().take(batch.count as usize) {
                let done = ExecutionResult {
                    output_handle: 0x1000 + d.block_id,
                    ..Default::default()
                };
                let arg = complete_operation(d.decision_id, d.generation, &done);
                self.inner.complete_operation(arg, 1).expect("complete an operation");
            }
        }
    }

    fn ask(&mut self, op: TrialOp) -> TrialReply {
        let mut reply = TrialReply { rc: 0, id: 0, cow_breaks: 0 };
        match op {
            TrialOp::Create => {
                let arg = PolarisSessionCreateArg::default();
                reply.id = self.inner.session_create(arg).expect("create a session").session_id;
            }
            TrialOp::Branch { parent } => {
                let arg = PolarisSessionBranchArg {
                    parent_session_id: parent,
                    ..Default::default()
                };
                reply.id = self.inner.session_branch(arg).expect("branch").child_session_id;
            }
            TrialOp::Stats => reply.cow_breaks = self.inner.cow_break_count,
            TrialOp::Destroy { session } => {
                let arg = PolarisSessionDestroyArg { session_id: session, ..Default::default() };
                self.inner.session_destroy(arg).expect("destroy a session");
                self.serve();
            }
            TrialOp::Reserve { session, token_start, overwrite } => {
                let arg = PolarisBlockReserveArg {
                    session_id: session,
                    token_start,
                    token_count: 16,
                    phase: 1,
                    flags: if overwrite { POLARIS_RESERVE_FLAG_OVERWRITE } else { 0 },
                    ..Default::default()
                };
                match self.inner.block_reserve(arg) {
                    Err(e) => reply.rc = -e,
                    Ok((r, fault)) => {
                        reply.id = r.block_id;
                        if let Some(f) = fault {
                            match self.inner.resolve_gpu_fault(f, 1) {
                                Ok(FaultStep::Wait { block_id, .. }) => {
                                    self.serve();
                                    self.inner.finish_gpu_fault(block_id, 1).expect("served");
                                }
                                other => panic!("{other:?}"),
                            }
                        }
                    }
                }
            }
        }
        reply
    }
}

#[test]
fn copy_on_write_trial_passes_on_the_device() {
    let mut b = Bench::new();
    let mut trial = CowTrial::new();
    while let Some(op) = trial.op() {
        let reply = b.ask(op);
        trial.note(&reply);
    }
    assert_eq!(trial.outcome(), TrialResult::Passed { passed: 7 });
    assert_eq!(b.inner.sessions.len(), 0);
}

#[test]
fn copy_on_write_trial_notices_failures() {
    let mut trial = CowTrial::new();
    let mut n = 0;
    while let Some(op) = trial.op() {
        n += 1;
        let rc = if matches!(op, TrialOp::Reserve { overwrite: true, .. }) { -EINVAL } else { 0 };
        trial.note(&TrialReply { rc, id: n, cow_breaks: 0 });
    }
    assert_eq!(trial.outcome(), TrialResult::Failed { passed: 0, failed: 7 });

    let mut refused = CowTrial::new();
    refused.note(&TrialReply { rc: 0, id: 1, cow_breaks: 0 });
    refused.note(&TrialReply { rc: -12, id: 0, cow_breaks: 0 });
    assert_eq!(refused.op(), Some(TrialOp::Destroy { session: 1 }));
    refused.note(&TrialReply { rc: 0, id: 0, cow_breaks: 0 });
    assert_eq!(refused.op(), None);
    assert_eq!(refused.outcome(), TrialResult::SetupFailed(0));
}
