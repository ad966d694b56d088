//! The executors against a driver that is made of maps, on their own and
//! together with the device.

use polaris::abi::{
    PolarisBlockGetStateArg, PolarisBlockReleaseArg, PolarisBlockReserveArg, PolarisBlockState,
    PolarisDecision, PolarisDecisionOp, PolarisGetDecisionArg, PolarisPhase, PolarisRegisterGpuArg,
    PolarisRegisterVaRangeArg, PolarisSessionBranchArg, PolarisSessionCreateArg,
    PolarisSessionDestroyArg, PolarisSpillBlockArg, POLARIS_DECISION_FLAG_SOURCE_BLOCK_ID_VALID,
    POLARIS_REGISTER_GPU_FLAG_TRANSIENT, POLARIS_RESERVE_FLAG_OVERWRITE, POLARIS_RM_COPY_TO_CPU,
};
use polaris::blocks::reserve_fault_outcome;
use polaris::cpu_pool::CpuPool;
use polaris::daemon::complete_operation;
use polaris::device::PolarisDevice;
use polaris::dispatch::{execute, resume};
use polaris::errno::{EFAULT, EINVAL, EIO, ENODEV, ENOENT, ENOMEM};
use polaris::executor::{After, DeviceCall, ExecutionResult, Reply};
use polaris::fault::FaultStep;
use polaris::gpu::GpuState;
use polaris::limits::{can_decide, can_dispatch};
use polaris::offload::Step;
use polaris::rm::{RmBackend, RmOptions, RmReply};
use polaris::runtime::{execute_decision, resume_decision};
use polaris::state::PolarisInner;
use std::collections::{HashMap, HashSet};

const MIB: u64 = 1024 * 1024;
const BLOCK: u64 = 2 * MIB;
const VA: u64 = 0x7000_0000_0000;
const HOST: u64 = 0x10_0000_0000;

/// A driver that remembers what it holds, where it is mapped and what is in it.
#[derive(Default)]
struct Driver {
    next: u64,
    live: HashSet<u64>,
    mapped: HashMap<u64, u64>,
    accessible: HashSet<u64>,
    device: HashMap<u64, u8>,
    host: HashMap<u64, u8>,
    memory: HashMap<u32, u8>,
    block_memory: HashMap<u64, u32>,
    calls: usize,
    fail_at: Option<usize>,
    short_copies: bool,
}

impl Driver {
    fn call(&mut self, call: &DeviceCall) -> Reply {
        let mut reply = Reply {
            errno: 0,
            handle: 0,
            bytes: 0,
            rm: RmReply { ret: 0, status: 0, h_object_new: 0, h_client: 0, size: 0, offset: 0 },
        };
        let at = self.calls;
        self.calls += 1;
        if self.fail_at == Some(at) {
            reply.errno = 71;
            reply.rm.ret = -1;
            return reply;
        }
        match *call {
            DeviceCall::CreatePhysical { .. } => {
                self.next += 1;
                reply.handle = 0x100 + self.next;
                self.live.insert(reply.handle);
                self.device.insert(reply.handle, 0);
            }
            DeviceCall::MapMemory { vaddr, handle, .. } => {
                assert!(self.live.contains(&handle));
                assert!(self.mapped.insert(vaddr, handle).is_none());
            }
            DeviceCall::SetAccess { vaddr, .. } => {
                assert!(self.mapped.contains_key(&vaddr));
                self.accessible.insert(vaddr);
            }
            DeviceCall::UnmapMemory { vaddr, .. } => {
                self.mapped.remove(&vaddr).expect("mapped");
                self.accessible.remove(&vaddr);
            }
            DeviceCall::ReleasePhysical { handle } => {
                assert!(self.live.remove(&handle));
                self.device.remove(&handle);
            }
            DeviceCall::CopyDeviceToDevice { dst, src, .. } => {
                let tag = self.device[&self.mapped[&src]];
                self.device.insert(self.mapped[&dst], tag);
            }
            DeviceCall::CopyDeviceToHost { dst, src, .. } => {
                self.host.insert(dst, self.device[&self.mapped[&src]]);
            }
            DeviceCall::CopyHostToDevice { dst, src, .. } => {
                self.device.insert(self.mapped[&dst], self.host[&src]);
            }
            DeviceCall::RmAlloc { params } => {
                self.next += 1;
                reply.rm.h_object_new = 0x500 + self.next as u32;
                reply.rm.size = params.size;
                reply.rm.offset = 0x8000 * self.next;
                self.memory.insert(reply.rm.h_object_new, 0);
            }
            DeviceCall::RmFree { free } => {
                self.memory.remove(&free.h_object_old).expect("memory of the resource manager");
            }
            DeviceCall::RmCopy { arg } => {
                let h = if arg.rm_h_memory != 0 {
                    arg.rm_h_memory
                } else {
                    self.block_memory[&arg.block_id]
                };
                if arg.direction == POLARIS_RM_COPY_TO_CPU {
                    self.host.insert(arg.user_cpu_addr, self.memory[&h]);
                } else {
                    self.memory.insert(h, self.host[&arg.user_cpu_addr]);
                }
                reply.bytes = if self.short_copies { arg.length - 1 } else { arg.length };
            }
        }
        reply
    }

    fn after(&mut self, after: &After) {
        match after {
            After::Nothing => {}
            After::One(a) => {
                self.call(a);
            }
            After::Two(a, b) => {
                self.call(a);
                self.call(b);
            }
        }
    }
}

struct Executor {
    gpu: GpuState,
    cpu: CpuPool,
    rm: Option<RmBackend>,
    driver: Driver,
}

impl Executor {
    fn new(host_bytes: u64, rm: bool) -> Executor {
        let options = RmOptions {
            force_contiguous: false,
            pressure_outside_fb_range: false,
            pressure_range_base: 0,
        };
        Executor {
            gpu: GpuState::new(0, 0, VA, 64 * BLOCK, BLOCK, 1 << 34, 1 << 29, host_bytes, HOST),
            cpu: CpuPool::new(HOST, host_bytes),
            rm: if rm { Some(RmBackend::with_handles(5, 0xc1, 0xd1, 0xe1, options)) } else { None },
            driver: Driver::default(),
        }
    }

    fn run(&mut self, dec: &PolarisDecision) -> ExecutionResult {
        assert!(can_dispatch(dec, &self.gpu, &self.cpu, &self.rm));
        let mut step = execute(dec, &mut self.gpu, &mut self.cpu, &mut self.rm, true, 0);
        loop {
            match step {
                Step::Ask { call, run } => {
                    let reply = self.driver.call(&call);
                    step = resume(run, &reply, &mut self.gpu, &mut self.cpu, &mut self.rm);
                }
                Step::Finish { after, result } => {
                    self.driver.after(&after);
                    if result.rm_h_memory != 0 {
                        self.driver.block_memory.insert(dec.block_id, result.rm_h_memory);
                    }
                    return result;
                }
            }
        }
    }
}

fn decision(op: PolarisDecisionOp, block_id: u64) -> PolarisDecision {
    PolarisDecision { op: op.to_u32(), block_id, size_bytes: BLOCK, ..Default::default() }
}

fn write(driver: &mut Driver, vaddr: u64, tag: u8) {
    assert!(driver.accessible.contains(&vaddr));
    driver.device.insert(driver.mapped[&vaddr], tag);
}

fn read(driver: &Driver, vaddr: u64) -> u8 {
    assert!(driver.accessible.contains(&vaddr));
    driver.device[&driver.mapped[&vaddr]]
}

// ─── The daemon's executor ──────────────────────────────────────────────────

#[test]
fn alloc_then_free_leaves_nothing() {
    let mut x = Executor::new(8 * BLOCK, false);
    let got = x.run(&decision(PolarisDecisionOp::Alloc, 1));
    assert_eq!(got, ExecutionResult { output_handle: 0x101, ..Default::default() });
    assert_eq!(x.gpu.used_bytes, BLOCK);
    assert_eq!(x.gpu.get_va_alloc(1).expect("addresses").vaddr, VA);
    assert_eq!(x.gpu.find_block_by_vaddr(VA), Some(1));
    assert_eq!(x.gpu.find_block_by_phys(0x101), Some(1));
    assert_eq!(x.gpu.vas.free_bytes(), 63 * BLOCK);

    assert_eq!(x.run(&decision(PolarisDecisionOp::Free, 1)).result, 0);
    assert_eq!(x.gpu.used_bytes, 0);
    assert_eq!(x.gpu.get_handle(1), None);
    assert_eq!(x.gpu.get_va_alloc(1), None);
    assert_eq!(x.gpu.vas.free_bytes(), 64 * BLOCK);
    assert!(x.driver.live.is_empty());
    assert!(x.driver.mapped.is_empty());
}

#[test]
fn alloc_fails_step_by_step_without_a_trace() {
    for (at, errno) in [(0, ENOMEM), (1, EINVAL), (2, EINVAL)] {
        let mut x = Executor::new(8 * BLOCK, false);
        x.driver.fail_at = Some(at);
        assert_eq!(x.run(&decision(PolarisDecisionOp::Alloc, 1)).result, -errno);
        assert!(x.driver.live.is_empty());
        assert!(x.driver.mapped.is_empty());
        assert_eq!(x.gpu.used_bytes, 0);
        assert_eq!(x.gpu.get_handle(1), None);
        assert_eq!(x.gpu.vas.free_bytes(), 64 * BLOCK);
    }
}

#[test]
fn alloc_at_a_named_address_takes_it_out_of_the_pool() {
    let mut x = Executor::new(8 * BLOCK, false);
    let mut dec = decision(PolarisDecisionOp::Alloc, 1);
    dec.dst_vaddr = VA + BLOCK;
    assert_eq!(x.run(&dec).result, 0);
    assert_eq!(x.gpu.vas.free_bytes(), 63 * BLOCK);
    let other = x.run(&decision(PolarisDecisionOp::Alloc, 2));
    assert_eq!(other.result, 0);
    assert_eq!(x.gpu.get_va_alloc(2).expect("addresses").vaddr, VA);
    assert_eq!(x.run(&decision(PolarisDecisionOp::Alloc, 3)).result, 0);
    assert_eq!(x.gpu.get_va_alloc(3).expect("addresses").vaddr, VA + 2 * BLOCK);
}

#[test]
fn offload_and_reload_keep_what_is_in_a_block() {
    let mut x = Executor::new(8 * BLOCK, false);
    x.run(&decision(PolarisDecisionOp::Alloc, 1));
    write(&mut x.driver, VA, 0x41);

    let out = x.run(&decision(PolarisDecisionOp::Offload, 1));
    assert_eq!(out, ExecutionResult { output_cpu_addr: HOST, ..Default::default() });
    assert_eq!(x.gpu.used_bytes, 0);
    assert_eq!(x.cpu.used_bytes(), BLOCK);
    assert_eq!(x.cpu.get(1), Some(HOST));
    assert!(x.driver.live.is_empty());
    assert_eq!(x.gpu.get_va_alloc(1).expect("addresses").vaddr, VA);

    let mut back = decision(PolarisDecisionOp::Reload, 1);
    back.cpu_addr = out.output_cpu_addr;
    assert_eq!(x.run(&back).result, 0);
    assert_eq!(read(&x.driver, VA), 0x41);
    assert_eq!(x.gpu.used_bytes, BLOCK);
    assert_eq!(x.cpu.used_bytes(), 0);
    assert_eq!(x.cpu.get(1), None);
}

#[test]
fn offload_failures_give_the_buffer_back() {
    for (at, errno) in [(0, EFAULT), (1, EINVAL)] {
        let mut x = Executor::new(8 * BLOCK, false);
        x.run(&decision(PolarisDecisionOp::Alloc, 1));
        x.driver.calls = 0;
        x.driver.fail_at = Some(at);
        assert_eq!(x.run(&decision(PolarisDecisionOp::Offload, 1)).result, -errno);
        assert_eq!(x.cpu.used_bytes(), 0);
        assert_eq!(x.gpu.used_bytes, BLOCK);
        assert_eq!(x.gpu.get_handle(1), Some(0x101));
    }
    let mut full = Executor::new(BLOCK / 2, false);
    full.run(&decision(PolarisDecisionOp::Alloc, 1));
    assert_eq!(full.run(&decision(PolarisDecisionOp::Offload, 1)).result, -ENOMEM);
    assert_eq!(full.run(&decision(PolarisDecisionOp::Offload, 9)).result, -EINVAL);
    let mut outside = decision(PolarisDecisionOp::Offload, 9);
    outside.src_vaddr = VA + 64 * BLOCK;
    assert_eq!(full.run(&outside).result, -EINVAL);
}

#[test]
fn reload_needs_a_copy_and_addresses() {
    let mut x = Executor::new(8 * BLOCK, false);
    assert_eq!(x.run(&decision(PolarisDecisionOp::Reload, 1)).result, -EINVAL);
    let mut named = decision(PolarisDecisionOp::Reload, 1);
    named.dst_vaddr = VA;
    assert_eq!(x.run(&named).result, -EINVAL);
}

#[test]
fn cow_break_copies_the_source() {
    let mut x = Executor::new(8 * BLOCK, false);
    let parent = x.run(&decision(PolarisDecisionOp::Alloc, 1));
    write(&mut x.driver, VA, 0x33);
    let mut cow = decision(PolarisDecisionOp::CowBreak, 2);
    cow.src_handle = parent.output_handle;
    cow.dst_vaddr = VA + 8 * BLOCK;
    let child = x.run(&cow);
    assert_eq!(child.result, 0);
    assert_ne!(child.output_handle, parent.output_handle);
    assert_eq!(read(&x.driver, VA + 8 * BLOCK), 0x33);
    write(&mut x.driver, VA + 8 * BLOCK, 0x34);
    assert_eq!(read(&x.driver, VA), 0x33);
    assert_eq!(x.gpu.used_bytes, 2 * BLOCK);
}

#[test]
fn map_existing_and_unmap() {
    let mut x = Executor::new(8 * BLOCK, false);
    let one = x.run(&decision(PolarisDecisionOp::Alloc, 1));
    write(&mut x.driver, VA, 7);
    let mut again = decision(PolarisDecisionOp::MapExisting, 2);
    assert_eq!(x.run(&again).result, -EINVAL);
    again.src_handle = one.output_handle;
    assert_eq!(x.run(&again).result, -EINVAL);
    again.dst_vaddr = VA + 4 * BLOCK;
    assert_eq!(x.run(&again).result, 0);
    assert_eq!(read(&x.driver, VA + 4 * BLOCK), 7);

    let mut unmap = decision(PolarisDecisionOp::Unmap, 2);
    assert_eq!(x.run(&unmap).result, 0);
    assert!(!x.driver.mapped.contains_key(&(VA + 4 * BLOCK)));
    unmap.block_id = 99;
    let before = x.driver.calls;
    assert_eq!(x.run(&unmap).result, 0);
    assert_eq!(x.driver.calls, before);
    unmap.dst_vaddr = VA;
    x.driver.fail_at = Some(before);
    assert_eq!(x.run(&unmap).result, -EINVAL);
}

#[test]
fn unknown_operations_and_injected_errors() {
    let mut x = Executor::new(8 * BLOCK, false);
    let odd = PolarisDecision { op: 42, size_bytes: BLOCK, ..Default::default() };
    assert_eq!(x.run(&odd).result, -EINVAL);

    let dec = decision(PolarisDecisionOp::Alloc, 1);
    let refused = execute(&dec, &mut x.gpu, &mut x.cpu, &mut x.rm, false, 0);
    match refused {
        Step::Finish { result, .. } => assert_eq!(result.result, -ENODEV),
        Step::Ask { .. } => panic!("no context, no call"),
    }
    match execute(&dec, &mut x.gpu, &mut x.cpu, &mut x.rm, true, 1) {
        Step::Finish { result, .. } => assert!(result.result < 0),
        Step::Ask { .. } => panic!("an error was to be injected"),
    }
}

#[test]
fn rm_backed_block_goes_out_and_comes_back() {
    let mut x = Executor::new(8 * BLOCK, true);
    let got = x.run(&decision(PolarisDecisionOp::Alloc, 1));
    assert_eq!(got.result, 0);
    assert_eq!(got.output_handle, 0);
    assert_eq!(got.rm_control_fd, 5);
    assert_eq!(got.rm_h_client, 0xc1);
    assert_eq!(got.rm_backing_length, BLOCK);
    x.driver.memory.insert(got.rm_h_memory, 0x55);

    let out = x.run(&decision(PolarisDecisionOp::Offload, 1));
    assert_eq!(out, ExecutionResult { output_cpu_addr: HOST, ..Default::default() });
    assert!(x.driver.memory.is_empty());
    assert_eq!(x.gpu.used_bytes, 0);

    let mut back = decision(PolarisDecisionOp::Reload, 1);
    back.cpu_addr = out.output_cpu_addr;
    back.dst_vaddr = VA;
    let again = x.run(&back);
    assert_eq!(again.result, 0);
    assert_eq!(x.driver.memory[&again.rm_h_memory], 0x55);
    assert_eq!(x.cpu.used_bytes(), 0);
    assert_eq!(x.gpu.used_bytes, BLOCK);

    assert_eq!(x.run(&decision(PolarisDecisionOp::Free, 1)).result, 0);
    assert!(x.driver.memory.is_empty());
    assert_eq!(x.gpu.used_bytes, 0);
    assert!(!x.rm.as_ref().expect("a client").has_block(1));
}

#[test]
fn rm_backed_failures_are_undone() {
    let mut x = Executor::new(8 * BLOCK, true);
    x.driver.fail_at = Some(0);
    assert_eq!(x.run(&decision(PolarisDecisionOp::Alloc, 1)).result, -ENOMEM);
    assert_eq!(x.gpu.vas.free_bytes(), 64 * BLOCK);
    x.driver.fail_at = None;

    x.run(&decision(PolarisDecisionOp::Alloc, 1));
    x.driver.short_copies = true;
    assert_eq!(x.run(&decision(PolarisDecisionOp::Offload, 1)).result, -EIO);
    assert_eq!(x.cpu.used_bytes(), 0);
    assert!(x.rm.as_ref().expect("a client").has_block(1));
    x.driver.short_copies = false;

    let out = x.run(&decision(PolarisDecisionOp::Offload, 1));
    x.driver.short_copies = true;
    let mut back = decision(PolarisDecisionOp::Reload, 1);
    back.cpu_addr = out.output_cpu_addr;
    assert_eq!(x.run(&back).result, -EIO);
    assert!(x.driver.memory.is_empty());
    assert!(!x.rm.as_ref().expect("a client").has_block(1));
    assert_eq!(x.cpu.used_bytes(), BLOCK);
}

#[test]
fn rm_backed_cow_goes_by_way_of_the_host() {
    let mut x = Executor::new(8 * BLOCK, true);
    let parent = x.run(&decision(PolarisDecisionOp::Alloc, 1));
    x.driver.memory.insert(parent.rm_h_memory, 0x66);
    let mut cow = decision(PolarisDecisionOp::CowBreak, 2);
    cow.dst_vaddr = VA + 8 * BLOCK;
    cow._reserved = [1, POLARIS_DECISION_FLAG_SOURCE_BLOCK_ID_VALID, 0, 0];
    let child = x.run(&cow);
    assert_eq!(child.result, 0);
    assert_ne!(child.rm_h_memory, parent.rm_h_memory);
    assert_eq!(x.driver.memory[&child.rm_h_memory], 0x66);
    assert_eq!(x.driver.memory[&parent.rm_h_memory], 0x66);
    assert_eq!(x.cpu.used_bytes(), 0);

    let mut nameless = decision(PolarisDecisionOp::CowBreak, 3);
    nameless.dst_vaddr = VA + 16 * BLOCK;
    assert_eq!(x.run(&nameless).result, -EINVAL);
}

#[test]
fn rm_offload_of_an_unknown_block_is_refused() {
    let mut x = Executor::new(8 * BLOCK, true);
    let backend = x.rm.as_ref().expect("a client");
    let dec = decision(PolarisDecisionOp::Offload, 9);
    let step = polaris::offload::execute_rm_offload(&dec, &x.gpu, &mut x.cpu, backend);
    match step {
        Step::Finish { result, .. } => assert_eq!(result.result, -ENOENT),
        Step::Ask { .. } => panic!("nothing to copy"),
    }
}

// ─── The runtime's executor ─────────────────────────────────────────────────

struct Worker {
    gpu: GpuState,
    cpu: polaris::runtime::CpuPool,
    driver: Driver,
}

impl Worker {
    fn new() -> Worker {
        Worker {
            gpu: GpuState::new(0, 0, VA, 128 * BLOCK, BLOCK, 16 << 30, 512 * MIB, 64 * MIB, HOST),
            cpu: polaris::runtime::CpuPool::new(HOST, 64 * MIB),
            driver: Driver::default(),
        }
    }

    fn run(&mut self, dec: &PolarisDecision) -> ExecutionResult {
        assert!(can_decide(dec, &self.gpu, &self.cpu));
        let mut step = execute_decision(dec, &mut self.gpu, &mut self.cpu, true);
        loop {
            match step {
                Step::Ask { call, run } => {
                    let reply = self.driver.call(&call);
                    step = resume_decision(run, &reply, &mut self.gpu, &mut self.cpu);
                }
                Step::Finish { after, result } => {
                    self.driver.after(&after);
                    return result;
                }
            }
        }
    }
}

#[test]
fn runtime_operations_keep_what_is_in_a_block() {
    let mut w = Worker::new();
    let one = w.run(&decision(PolarisDecisionOp::Alloc, 1));
    assert_eq!(one.result, 0);
    write(&mut w.driver, VA, 0x21);
    let out = w.run(&decision(PolarisDecisionOp::Offload, 1));
    assert_eq!(out.result, 0);
    assert_eq!(w.cpu.used, BLOCK);
    let back = w.run(&decision(PolarisDecisionOp::Reload, 1));
    assert_eq!(back.result, 0);
    assert_eq!(read(&w.driver, VA), 0x21);
    assert_eq!(w.cpu.used, 0);

    let mut cow = decision(PolarisDecisionOp::CowBreak, 2);
    cow.src_handle = back.output_handle;
    cow.dst_vaddr = VA + 8 * BLOCK;
    assert_eq!(w.run(&cow).result, 0);
    assert_eq!(read(&w.driver, VA + 8 * BLOCK), 0x21);

    assert_eq!(w.run(&decision(PolarisDecisionOp::Free, 1)).result, 0);
    assert_eq!(w.run(&decision(PolarisDecisionOp::Free, 2)).result, 0);
    assert!(w.driver.live.is_empty());
    assert_eq!(w.gpu.used_bytes, 0);
}

#[test]
fn runtime_without_a_context_does_nothing() {
    let mut w = Worker::new();
    let dec = decision(PolarisDecisionOp::Alloc, 1);
    match execute_decision(&dec, &mut w.gpu, &mut w.cpu, false) {
        Step::Finish { result, .. } => assert_eq!(result.result, -ENODEV),
        Step::Ask { .. } => panic!("no context, no call"),
    }
    let odd = PolarisDecision { op: 42, size_bytes: BLOCK, ..Default::default() };
    assert_eq!(w.run(&odd).result, -EINVAL);
}

// ─── Together with the device ───────────────────────────────────────────────

fn attached(base: u64, length: u64, flags: u32) -> (PolarisInner, PolarisDevice) {
    let mut inner = PolarisInner::new();
    let mut dev = PolarisDevice::open();
    let gpu = PolarisRegisterGpuArg {
        gpu_id: 0,
        total_bytes: 16 * 1024 * MIB,
        budget_bytes: 512 * MIB,
        cpu_pool_bytes: 64 * MIB,
        _reserved: flags,
        ..Default::default()
    };
    inner.register_gpu(&mut dev, gpu).expect("register the GPU");
    let range = PolarisRegisterVaRangeArg {
        gpu_id: 0,
        base,
        length,
        block_size: BLOCK,
        ..Default::default()
    };
    inner.register_va_range(&mut dev, range).expect("register the range");
    (inner, dev)
}

fn serve<F: FnMut(&PolarisDecision) -> ExecutionResult>(inner: &mut PolarisInner, mut run: F) {
    loop {
        let batch = inner.get_decision(PolarisGetDecisionArg::default(), 1);
        if batch.count == 0 {
            return;
        }
        for dec in batch.decisions.iter().take(batch.count as usize) {
            let result = run(dec);
            let arg = complete_operation(dec.decision_id, dec.generation, &result);
            inner.complete_operation(arg, 1).expect("complete an operation");
        }
    }
}

fn reserve<F: FnMut(&PolarisDecision) -> ExecutionResult>(
    inner: &mut PolarisInner,
    session_id: u64,
    flags: u32,
    run: F,
) -> PolarisBlockReserveArg {
    let arg = PolarisBlockReserveArg {
        session_id,
        token_start: 0,
        token_count: 1,
        phase: PolarisPhase::Prefill.to_u32(),
        flags,
        ..Default::default()
    };
    let (reply, fault) = inner.block_reserve(arg).expect("reserve a block");
    if let Some(fault) = fault {
        match reserve_fault_outcome(inner.resolve_gpu_fault(fault, 1)).expect("a fault") {
            FaultStep::Wait { block_id, .. } => {
                serve(inner, run);
                inner.finish_gpu_fault(block_id, 1).expect("a served fault");
            }
            other => panic!("{other:?}"),
        }
    }
    reply
}

fn session(inner: &mut PolarisInner) -> u64 {
    let arg = PolarisSessionCreateArg {
        home_gpu: 0,
        gpu_vas_bytes: BLOCK,
        bytes_per_token: BLOCK,
        priority: 5,
        ..Default::default()
    };
    inner.session_create(arg).expect("create a session").session_id
}

fn state(inner: &PolarisInner, session_id: u64, block_id: u64) -> u32 {
    let arg = PolarisBlockGetStateArg { session_id, block_id, ..Default::default() };
    inner.block_get_state(arg).expect("the state of a block").state
}

#[test]
fn an_operation_that_fails_once_is_carried_out_where_it_was_asked_for() {
    let (mut inner, _dev) = attached(VA, 64 * BLOCK, 0);
    let mut x = Executor::new(8 * BLOCK, false);
    let sid = session(&mut inner);
    let mut asked: Vec<PolarisDecision> = Vec::new();
    let reply = reserve(&mut inner, sid, 0, |d| {
        asked.push(*d);
        if asked.len() == 1 {
            return ExecutionResult::of(-ENOMEM, 0, 0);
        }
        x.run(d)
    });
    assert_eq!(asked.len(), 2);
    assert_eq!(asked[1].dst_vaddr, reply.gpu_vaddr);
    assert_eq!(asked[1].generation, asked[0].generation);
    assert_eq!(state(&inner, sid, reply.block_id), PolarisBlockState::Resident.to_u32());
    let va = x.gpu.get_va_alloc(reply.block_id).expect("addresses of the block");
    assert_eq!(va.vaddr, reply.gpu_vaddr);
}

#[test]
fn polarisd_rm_backing_alloc_and_free_decision_flow() {
    let (mut inner, _dev) = attached(VA, 64 * BLOCK, 0);
    let mut x = Executor::new(8 * BLOCK, true);
    let sid = session(&mut inner);
    let reply = reserve(&mut inner, sid, 0, |d| x.run(d));
    assert_ne!(reply.block_id, 0);
    assert_ne!(reply.gpu_vaddr, 0);
    assert_eq!(state(&inner, sid, reply.block_id), PolarisBlockState::Resident.to_u32());
    assert_eq!(inner.blocks.len(), 1);

    let release = PolarisBlockReleaseArg {
        session_id: sid,
        token_start: 0,
        token_count: 1,
        ..Default::default()
    };
    inner.block_release(release).expect("release a block");
    serve(&mut inner, |d| x.run(d));
    assert_eq!(inner.blocks.len(), 0);
    assert_eq!(inner.pending_decisions.len(), 0);
    assert!(x.driver.memory.is_empty());
    let destroy = PolarisSessionDestroyArg { session_id: sid, ..Default::default() };
    inner.session_destroy(destroy).expect("destroy a session");
}

#[test]
fn block_reserve_spill_and_reload_via_runtime_worker() {
    let (mut inner, _dev) = attached(VA, 256 * MIB, POLARIS_REGISTER_GPU_FLAG_TRANSIENT);
    let mut w = Worker::new();
    let sid = session(&mut inner);
    let first = reserve(&mut inner, sid, 0, |d| w.run(d));
    assert_ne!(first.block_id, 0);
    assert_ne!(first.gpu_vaddr, 0);
    write(&mut w.driver, first.gpu_vaddr, 0x41);

    let offloads = inner.offload_count;
    let reloads = inner.reload_count;
    let host_used = inner.gpus[0].cpu_pool_used_bytes;
    let spill = PolarisSpillBlockArg { block_id: first.block_id, ..Default::default() };
    assert_ne!(inner.spill_block(spill).expect("spill a block"), 0);
    let none = inner.unmap_observed_block_mappings(first.block_id).expect("mappings of a block");
    assert_eq!(none.len(), 0);
    serve(&mut inner, |d| w.run(d));
    assert_eq!(state(&inner, sid, first.block_id), PolarisBlockState::CpuOffloaded.to_u32());
    assert_eq!(inner.offload_count, offloads + 1);
    assert!(inner.gpus[0].cpu_pool_used_bytes >= host_used + MIB);

    let again = reserve(&mut inner, sid, POLARIS_RESERVE_FLAG_OVERWRITE, |d| w.run(d));
    assert_eq!(again.block_id, first.block_id);
    assert_eq!(again.gpu_vaddr, first.gpu_vaddr);
    assert_eq!(state(&inner, sid, first.block_id), PolarisBlockState::Resident.to_u32());
    assert_eq!(inner.reload_count, reloads + 1);
    assert_eq!(inner.gpus[0].cpu_pool_used_bytes, host_used);
    assert_eq!(read(&w.driver, again.gpu_vaddr), 0x41);
    let destroy = PolarisSessionDestroyArg { session_id: sid, ..Default::default() };
    inner.session_destroy(destroy).expect("destroy a session");
}

#[test]
fn child_gets_a_copy_of_what_it_overwrites() {
    let (mut inner, _dev) = attached(VA, 64 * BLOCK, 0);
    let mut x = Executor::new(8 * BLOCK, false);
    let parent = session(&mut inner);
    let mine = reserve(&mut inner, parent, 0, |d| x.run(d));
    write(&mut x.driver, mine.gpu_vaddr, 0x11);
    let branch = PolarisSessionBranchArg { parent_session_id: parent, ..Default::default() };
    let child = inner.session_branch(branch).expect("branch a session").child_session_id;
    // Without an address the executor finds the source by its handle.
    let theirs = reserve(&mut inner, child, POLARIS_RESERVE_FLAG_OVERWRITE, |d| {
        x.run(&PolarisDecision { src_vaddr: 0, ..*d })
    });
    assert_eq!(theirs.gpu_vaddr, mine.gpu_vaddr + BLOCK);
    assert_eq!(read(&x.driver, theirs.gpu_vaddr), 0x11);
    write(&mut x.driver, theirs.gpu_vaddr, 0x12);
    assert_eq!(read(&x.driver, mine.gpu_vaddr), 0x11);
    assert_eq!(inner.cow_break_count, 1);
    assert_eq!(inner.cow_copy_bytes, BLOCK);
}

#[test]
fn rm_backend_allocates_and_frees_device_memory() {
    let mut x = Executor::new(8 * BLOCK, true);
    let backend = x.rm.as_mut().expect("a client");
    assert_ne!(backend.rm_control_fd(), 0);
    assert_ne!(backend.h_client, 0);
    let step = backend.alloc_for_block(0xfeed_beef, 2 * 1024 * 1024);
    let params = match step {
        polaris::rm::MemoryStep::Ask(params) => params,
        other => panic!("{other:?}"),
    };
    let reply = x.driver.call(&DeviceCall::RmAlloc { params });
    let allocation = backend.note_allocation(0xfeed_beef, &reply.rm).expect("memory");
    assert_ne!(allocation.h_memory, 0);
    assert!(allocation.size >= 2 * 1024 * 1024);
    let free = backend.free_block(0xfeed_beef).expect("something to free");
    let reply = x.driver.call(&DeviceCall::RmFree { free });
    backend.note_free(0xfeed_beef, &reply.rm).expect("freed");
    assert!(!backend.has_block(0xfeed_beef));
}
