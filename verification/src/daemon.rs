//! The executor as a program: its settings, the order in which it works, and the
//! copies it has others make.

use crate::abi::{
    PolarisCompleteOperationArg, PolarisDecision, PolarisDecisionOp, PolarisGetDecisionArg,
    PolarisRegisterGpuArg, PolarisRegisterVaRangeArg, PolarisRmCopyArg,
    POLARIS_DEFAULT_BYTES_PER_TOKEN, POLARIS_MAX_DECISIONS_PER_POLL, POLARIS_RM_COPY_TO_CPU,
};
use crate::cpu_pool::CpuPool;
use crate::errno::ENODEV;
use crate::executor::{ExecutionResult, Reply};
use crate::gpu::GpuState;
use crate::offload::{
    copy_record, execute_rm_offload, make_copy, resume_rm_offload_copy, rm_offload_copied,
    rm_offloading, Run, Step,
};
use crate::parse::{
    bytes, bytes_set, chars_of, enabled_exactly, parse_i32, parse_u64, parsed_i32, parsed_u64,
    switched_on_exactly,
};
use crate::ranges::{can_give, snap_fits};
use crate::rm::{RmBackend, RmOptions, RmReply, DEFAULT_PRESSURE_RANGE_BASE};
use vstd::prelude::*;
use vstd::string::*;

verus! {

// ─── Settings ───────────────────────────────────────────────────────────────

/// A GPU as the management library describes it.
#[derive(Debug, PartialEq, Eq)]
pub struct GpuInfo {
    pub index: u32,
    pub name: String,
    pub total_memory: u64,
    pub free_memory: u64,
}

/// How many GiB of GPU addresses are reserved if nothing else is set.
pub const DEFAULT_VA_RESERVE_GIB: u64 = 64;

/// One GiB.
pub const GIB: u64 = 0x4000_0000;

/// How much host memory is pinned if nothing else is set.
pub const DEFAULT_CPU_POOL_BYTES: u64 = 0x1_0000_0000;

/// How many workers copy in the background if nothing else is set.
pub const DEFAULT_WORKERS: u64 = 4;

/// How many GiB of GPU addresses are to be reserved.
pub open spec fn reserve_gib(value: Option<&str>) -> u64 {
    match value {
        Some(s) => match parsed_u64(s@) {
            Some(n) => n,
            None => DEFAULT_VA_RESERVE_GIB,
        },
        None => DEFAULT_VA_RESERVE_GIB,
    }
}

/// How many bytes of GPU addresses are to be reserved.
pub fn va_reserve_size(value: Option<&str>) -> (r: u64)
    requires
        reserve_gib(value) * GIB <= u64::MAX,
    ensures
        r == reserve_gib(value) * GIB,
{
    let gib = match value {
        Some(s) => match parse_u64(&chars_of(s)) {
            Some(n) => n,
            None => DEFAULT_VA_RESERVE_GIB,
        },
        None => DEFAULT_VA_RESERVE_GIB,
    };
    gib * GIB
}

/// How much memory of a GPU blocks may take: what is set, or three quarters.
pub open spec fn budget_of(value: Option<&str>, total_memory: u64) -> u64 {
    match value {
        Some(s) => match bytes_set(s@) {
            Some(n) => n,
            None => (total_memory * 3 / 4) as u64,
        },
        None => (total_memory * 3 / 4) as u64,
    }
}

/// How much memory of a GPU blocks may take: what is set, or three quarters.
pub fn gpu_budget(value: Option<&str>, total_memory: u64) -> (r: u64)
    requires
        total_memory * 3 <= u64::MAX,
    ensures
        r == budget_of(value, total_memory),
{
    match bytes(value) {
        Some(n) => n,
        None => total_memory * 3 / 4,
    }
}

/// How much host memory is to be pinned.
pub open spec fn pool_of(value: Option<&str>) -> u64 {
    match value {
        Some(s) => match bytes_set(s@) {
            Some(n) => n,
            None => DEFAULT_CPU_POOL_BYTES,
        },
        None => DEFAULT_CPU_POOL_BYTES,
    }
}

/// How much host memory is to be pinned.
pub fn cpu_pool_size(value: Option<&str>) -> (r: u64)
    ensures
        r == pool_of(value),
{
    match bytes(value) {
        Some(n) => n,
        None => DEFAULT_CPU_POOL_BYTES,
    }
}

/// Which failure is to be tried out; zero for none.
pub open spec fn failure_of(value: Option<&str>) -> i32 {
    match value {
        Some(s) => match parsed_i32(s@) {
            Some(n) => n,
            None => 0i32,
        },
        None => 0i32,
    }
}

/// Which failure is to be tried out; zero for none.
pub fn test_error(value: Option<&str>) -> (r: i32)
    ensures
        r == failure_of(value),
{
    match value {
        Some(s) => match parse_i32(&chars_of(s)) {
            Some(n) => n,
            None => 0,
        },
        None => 0,
    }
}

/// How many workers copy in the background.
pub open spec fn workers_of(value: Option<&str>) -> u64 {
    match value {
        Some(s) => match parsed_u64(s@) {
            Some(n) => if n > 0 {
                n
            } else {
                DEFAULT_WORKERS
            },
            None => DEFAULT_WORKERS,
        },
        None => DEFAULT_WORKERS,
    }
}

/// How many workers copy in the background.
pub fn worker_count(value: Option<&str>) -> (r: u64)
    ensures
        r == workers_of(value),
{
    match value {
        Some(s) => match parse_u64(&chars_of(s)) {
            Some(n) => if n > 0 {
                n
            } else {
                DEFAULT_WORKERS
            },
            None => DEFAULT_WORKERS,
        },
        None => DEFAULT_WORKERS,
    }
}

/// How memory of the resource manager is asked for.
pub fn rm_options(
    force_contiguous: Option<&str>,
    pressure_outside_fb_range: Option<&str>,
    pressure_range_base: Option<&str>,
) -> (r: RmOptions)
    ensures
        r == (RmOptions {
            force_contiguous: force_contiguous matches Some(s) && switched_on_exactly(s@),
            pressure_outside_fb_range: pressure_outside_fb_range matches Some(s)
                && switched_on_exactly(s@),
            pressure_range_base: match pressure_range_base {
                Some(s) => match bytes_set(s@) {
                    Some(n) => n,
                    None => DEFAULT_PRESSURE_RANGE_BASE,
                },
                None => DEFAULT_PRESSURE_RANGE_BASE,
            },
        }),
{
    RmOptions {
        force_contiguous: enabled_exactly(force_contiguous),
        pressure_outside_fb_range: enabled_exactly(pressure_outside_fb_range),
        pressure_range_base: match bytes(pressure_range_base) {
            Some(n) => n,
            None => DEFAULT_PRESSURE_RANGE_BASE,
        },
    }
}

/// What the device is told of a GPU.
pub open spec fn gpu_record(
    gpu_id: u32,
    total_bytes: u64,
    budget_bytes: u64,
    cpu_pool_bytes: u64,
) -> PolarisRegisterGpuArg {
    PolarisRegisterGpuArg {
        gpu_id,
        total_bytes,
        budget_bytes,
        cpu_pool_bytes,
        numa_node: 0,
        _reserved: 0,
        _reserved2: [0u64, 0u64],
    }
}

/// What the device is told of a GPU.
pub fn register_gpu_arg(
    gpu_id: u32,
    total_bytes: u64,
    budget_bytes: u64,
    cpu_pool_bytes: u64,
) -> (r: PolarisRegisterGpuArg)
    ensures
        r == gpu_record(gpu_id, total_bytes, budget_bytes, cpu_pool_bytes),
{
    PolarisRegisterGpuArg {
        gpu_id,
        total_bytes,
        budget_bytes,
        cpu_pool_bytes,
        numa_node: 0,
        _reserved: 0,
        _reserved2: [0u64, 0u64],
    }
}

/// The size of a block of sixteen tokens.
pub const DAEMON_BLOCK_SIZE: u64 = 0x80_0000;

/// What the device is told of a range of GPU addresses.
pub open spec fn range_record(
    gpu_id: u32,
    base: u64,
    length: u64,
    block_size: u64,
) -> PolarisRegisterVaRangeArg {
    PolarisRegisterVaRangeArg {
        range_id: 0,
        gpu_id,
        flags: 0,
        base,
        length,
        block_size,
        _reserved: [0u64, 0u64, 0u64, 0u64],
    }
}

/// What the device is told of a range of GPU addresses.
pub fn register_va_range_arg(gpu_id: u32, base: u64, length: u64, block_size: u64) -> (r:
    PolarisRegisterVaRangeArg)
    ensures
        r == range_record(gpu_id, base, length, block_size),
{
    PolarisRegisterVaRangeArg {
        range_id: 0,
        gpu_id,
        flags: 0,
        base,
        length,
        block_size,
        _reserved: [0u64, 0u64, 0u64, 0u64],
    }
}

/// A block of sixteen tokens at the usual size of a token.
pub proof fn law_daemon_block_holds_sixteen_tokens()
    ensures
        DAEMON_BLOCK_SIZE == POLARIS_DEFAULT_BYTES_PER_TOKEN * 16,
{
}

/// What the device is told of a decision that was carried out.
pub open spec fn completion_of(decision_id: u64, generation: u64, exec: ExecutionResult) -> PolarisCompleteOperationArg {
    PolarisCompleteOperationArg {
        decision_id,
        generation,
        result: exec.result,
        rm_control_fd: exec.rm_control_fd,
        output_handle: exec.output_handle,
        output_cpu_addr: exec.output_cpu_addr,
        rm_h_client: exec.rm_h_client,
        rm_h_memory: exec.rm_h_memory,
        rm_backing_length: exec.rm_backing_length,
    }
}

/// What the device is told of a decision that was carried out.
pub fn complete_operation(decision_id: u64, generation: u64, exec: &ExecutionResult) -> (r:
    PolarisCompleteOperationArg)
    ensures
        r == completion_of(decision_id, generation, *exec),
{
    PolarisCompleteOperationArg {
        decision_id,
        generation,
        result: exec.result,
        rm_control_fd: exec.rm_control_fd,
        output_handle: exec.output_handle,
        output_cpu_addr: exec.output_cpu_addr,
        rm_h_client: exec.rm_h_client,
        rm_h_memory: exec.rm_h_memory,
        rm_backing_length: exec.rm_backing_length,
    }
}

// ─── Copies in the background ───────────────────────────────────────────────

/// A copy to the host that a worker makes.
#[derive(Clone, Copy, Debug, PartialEq, Eq)]
pub struct RmOffloadJob {
    pub decision_id: u64,
    pub generation: u64,
    pub block_id: u64,
    pub size: u64,
    pub cpu_addr: u64,
}

/// What a worker reports.
#[derive(Clone, Copy, Debug, PartialEq, Eq)]
pub struct OffloadDone {
    pub job: RmOffloadJob,
    /// Zero, or the error number of the copy.
    pub copy_result: i32,
    pub bytes_copied: u64,
}

/// The job for the copy that an offload begins with, if it begins with one.
pub open spec fn job_of(dec: PolarisDecision, begun: Step) -> Option<RmOffloadJob> {
    match begun {
        Step::Ask { run: Run::RmOffloadCopy { block_id, size, cpu_addr }, .. } => Some(
            RmOffloadJob {
                decision_id: dec.decision_id,
                generation: dec.generation,
                block_id,
                size,
                cpu_addr,
            },
        ),
        _ => None,
    }
}

/// Begin an offload whose copy is made in the background: its buffer is taken,
/// and the job says what to copy. There is none where the offload fails at once.
pub fn prepare_rm_offload(
    dec: &PolarisDecision,
    gpu: &GpuState,
    cpu_pool: &mut CpuPool,
    backend: &RmBackend,
) -> (r: Option<RmOffloadJob>)
    requires
        old(cpu_pool)@.wf(),
        snap_fits(dec.size_bytes, gpu@.granule),
    ensures
        final(cpu_pool)@ == rm_offloading(gpu@, old(cpu_pool)@, backend@, *dec).1,
        final(cpu_pool)@.wf(),
        r == job_of(*dec, rm_offloading(gpu@, old(cpu_pool)@, backend@, *dec).0),
        r matches Some(job) ==> can_give(final(cpu_pool)@.free, job.cpu_addr, job.size),
{
    match execute_rm_offload(dec, gpu, cpu_pool, backend) {
        Step::Ask { run: Run::RmOffloadCopy { block_id, size, cpu_addr }, .. } => Some(
            RmOffloadJob {
                decision_id: dec.decision_id,
                generation: dec.generation,
                block_id,
                size,
                cpu_addr,
            },
        ),
        _ => None,
    }
}

/// The copy that a job stands for.
pub open spec fn job_copy(job: RmOffloadJob) -> PolarisRmCopyArg {
    copy_record(job.block_id, job.size, job.cpu_addr, POLARIS_RM_COPY_TO_CPU, 0, 0, 0)
}

/// What a worker is to copy.
pub fn copy_rm_offload(job: &RmOffloadJob) -> (r: PolarisRmCopyArg)
    ensures
        r == job_copy(*job),
{
    make_copy(job.block_id, job.size, job.cpu_addr, POLARIS_RM_COPY_TO_CPU, 0, 0, 0)
}

/// A worker's report as the reply to the copy.
pub open spec fn reply_of(done: OffloadDone) -> Reply {
    Reply {
        errno: done.copy_result,
        handle: 0,
        bytes: done.bytes_copied,
        rm: RmReply {
            ret: 0,
            status: 0,
            h_object_new: 0,
            h_client: 0,
            size: 0,
            offset: 0,
        },
    }
}

/// Go on with an offload whose copy was made in the background.
pub fn finalize_rm_offload(
    done: &OffloadDone,
    gpu: &mut GpuState,
    cpu_pool: &mut CpuPool,
    backend: &mut RmBackend,
) -> (r: Step)
    requires
        old(gpu)@.wf(),
        old(cpu_pool)@.wf(),
        can_give(old(cpu_pool)@.free, done.job.cpu_addr, done.job.size),
        done.copy_result >= 0,
    ensures
        (r, final(gpu)@, final(cpu_pool)@, final(backend)@) == rm_offload_copied(
            old(gpu)@,
            old(cpu_pool)@,
            old(backend)@,
            done.job.block_id,
            done.job.size,
            done.job.cpu_addr,
            reply_of(*done),
        ),
        final(gpu)@.wf(),
        final(cpu_pool)@.wf(),
{
    let reply = Reply {
        errno: done.copy_result,
        handle: 0,
        bytes: done.bytes_copied,
        rm: RmReply { ret: 0, status: 0, h_object_new: 0, h_client: 0, size: 0, offset: 0 },
    };
    resume_rm_offload_copy(
        gpu,
        cpu_pool,
        backend,
        done.job.block_id,
        done.job.size,
        done.job.cpu_addr,
        &reply,
    )
}

/// How many copies are under way, and how many may be.
#[derive(Clone, Copy, Debug, PartialEq, Eq)]
pub struct AsyncOffloadPool {
    pub outstanding: usize,
    pub max_outstanding: usize,
}

impl AsyncOffloadPool {
    /// No more copies are under way than may be.
    pub open spec fn wf(self) -> bool {
        self.outstanding <= self.max_outstanding
    }

    /// Two copies for each worker may be under way; there is at least one
    /// worker.
    pub fn new(num_workers: usize) -> (r: AsyncOffloadPool)
        requires
            num_workers * 2 <= usize::MAX,
        ensures
            r.outstanding == 0,
            r.max_outstanding == (if num_workers == 0 {
                2
            } else {
                num_workers * 2
            }),
            r.wf(),
    {
        let num_workers = if num_workers == 0 {
            1
        } else {
            num_workers
        };
        AsyncOffloadPool { outstanding: 0, max_outstanding: num_workers * 2 }
    }

    /// Whether another copy must wait.
    pub fn is_full(&self) -> (r: bool)
        ensures
            r == (self.outstanding >= self.max_outstanding),
    {
        self.outstanding >= self.max_outstanding
    }

    /// How many copies are under way.
    pub fn outstanding(&self) -> (r: usize)
        ensures
            r == self.outstanding,
    {
        self.outstanding
    }

    /// A copy was handed to the workers; `sent` says whether they took it.
    pub fn submit(&mut self, sent: bool)
        requires
            old(self).wf(),
            old(self).outstanding < old(self).max_outstanding,
        ensures
            final(self).outstanding == (if sent {
                old(self).outstanding + 1
            } else {
                old(self).outstanding as int
            }),
            final(self).max_outstanding == old(self).max_outstanding,
            final(self).wf(),
    {
        if sent {
            self.outstanding = self.outstanding + 1;
        }
    }

    /// So many copies were reported as made.
    pub fn drain_completed(&mut self, done: usize)
        requires
            old(self).wf(),
            done <= old(self).outstanding,
        ensures
            final(self).outstanding == old(self).outstanding - done,
            final(self).max_outstanding == old(self).max_outstanding,
            final(self).wf(),
    {
        self.outstanding = self.outstanding - done;
    }
}

// ─── The loop ───────────────────────────────────────────────────────────────

/// Where the loop stands.
#[derive(Clone, Copy, Debug, PartialEq, Eq)]
pub enum LoopState {
    /// Reports of workers are taken in before anything else.
    Draining,
    /// Decisions are asked for.
    Polling,
    /// The decision at a place waits for a worker to be free.
    Waiting { at: usize },
    /// The decision at a place is offered to the workers.
    Offering { at: usize },
    /// The decision at a place is carried out here.
    Executing { at: usize },
    /// The remaining reports are taken in, then the loop ends.
    Closing,
    Closed,
}

/// What the loop does next.
#[derive(Clone, Copy, Debug, PartialEq, Eq)]
pub enum LoopAction {
    /// Take in the reports that workers have ready.
    Drain,
    /// Ask for decisions.
    Poll,
    /// Wait for at least one report, and take in all that are ready.
    WaitForCompletion,
    /// Begin the offload, and hand its copy to the workers.
    Offer(PolarisDecision),
    /// Carry the decision out, and report it.
    Execute(PolarisDecision),
    /// Take in the remaining reports.
    Shutdown,
    /// Leave.
    Exit,
}

/// What came of it.
#[derive(Clone, Copy, Debug, PartialEq, Eq)]
pub enum LoopEvent {
    /// It is done.
    Done,
    /// The device had decisions, or none.
    Polled(PolarisGetDecisionArg),
    /// The device reported an error.
    PollFailed(i32),
    /// Whether the workers took the copy.
    Offered(bool),
}

/// The loop in which decisions are asked for and carried out.
pub struct DecisionLoop {
    pub state: LoopState,
    pub batch: PolarisGetDecisionArg,
    /// Copies may be made in the background: workers were started and memory of
    /// the resource manager is in use.
    pub background: bool,
    pub test_err: i32,
}

impl DecisionLoop {
    /// The decision at a place is within the batch.
    pub open spec fn wf(self) -> bool {
        &&& self.batch.count <= POLARIS_MAX_DECISIONS_PER_POLL
        &&& match self.state {
            LoopState::Waiting { at } => at < self.batch.count && self.background,
            LoopState::Offering { at } => at < self.batch.count && self.background,
            LoopState::Executing { at } => at < self.batch.count,
            LoopState::Closing => self.background,
            _ => true,
        }
    }

    /// The state in which decisions are asked for next.
    pub open spec fn again(self) -> LoopState {
        if self.background {
            LoopState::Draining
        } else {
            LoopState::Polling
        }
    }

    /// The state in which the decision at a place is begun, or decisions are
    /// asked for where the batch is through. `full` says that no worker is free.
    pub open spec fn arriving(self, at: int, full: bool) -> LoopState {
        if at >= self.batch.count {
            self.again()
        } else if self.batch.decisions[at].op == PolarisDecisionOp::Offload.code() && self.test_err
            == 0 && self.background {
            if full {
                LoopState::Waiting { at: at as usize }
            } else {
                LoopState::Offering { at: at as usize }
            }
        } else {
            LoopState::Executing { at: at as usize }
        }
    }

    /// What the loop does next.
    pub open spec fn next_action(self) -> LoopAction {
        match self.state {
            LoopState::Draining => LoopAction::Drain,
            LoopState::Polling => LoopAction::Poll,
            LoopState::Waiting { .. } => LoopAction::WaitForCompletion,
            LoopState::Offering { at } => LoopAction::Offer(self.batch.decisions[at as int]),
            LoopState::Executing { at } => LoopAction::Execute(self.batch.decisions[at as int]),
            LoopState::Closing => LoopAction::Shutdown,
            LoopState::Closed => LoopAction::Exit,
        }
    }

    /// The loop after an event. `full` says that no worker is free.
    pub open spec fn after(self, event: LoopEvent, full: bool) -> DecisionLoop {
        match self.state {
            LoopState::Draining => DecisionLoop { state: LoopState::Polling, ..self },
            LoopState::Polling => match event {
                LoopEvent::Polled(batch) => {
                    let d = DecisionLoop { batch, ..self };
                    DecisionLoop { state: d.arriving(0, full), ..d }
                },
                LoopEvent::PollFailed(errno) => if errno == ENODEV {
                    DecisionLoop {
                        state: if self.background {
                            LoopState::Closing
                        } else {
                            LoopState::Closed
                        },
                        ..self
                    }
                } else {
                    DecisionLoop { state: self.again(), ..self }
                },
                _ => self,
            },
            LoopState::Waiting { at } => DecisionLoop { state: LoopState::Offering { at }, ..self },
            LoopState::Offering { at } => match event {
                LoopEvent::Offered(taken) => DecisionLoop {
                    state: if taken {
                        self.arriving(at + 1, full)
                    } else {
                        LoopState::Executing { at }
                    },
                    ..self
                },
                _ => self,
            },
            LoopState::Executing { at } => DecisionLoop {
                state: self.arriving(at + 1, full),
                ..self
            },
            LoopState::Closing => DecisionLoop { state: LoopState::Closed, ..self },
            LoopState::Closed => self,
        }
    }

    /// An event that brings decisions brings no more than there is room for.
    pub open spec fn fits(event: LoopEvent) -> bool {
        event matches LoopEvent::Polled(batch) ==> batch.count <= POLARIS_MAX_DECISIONS_PER_POLL
    }

    /// Start the loop.
    pub fn new(batch: PolarisGetDecisionArg, background: bool, test_err: i32) -> (r: DecisionLoop)
        requires
            batch.count == 0,
        ensures
            r.batch == batch,
            r.background == background,
            r.test_err == test_err,
            r.state == r.again(),
            r.wf(),
    {
        DecisionLoop {
            state: if background {
                LoopState::Draining
            } else {
                LoopState::Polling
            },
            batch,
            background,
            test_err,
        }
    }

    /// What the loop does next.
    pub fn action(&self) -> (r: LoopAction)
        requires
            self.wf(),
        ensures
            r == self.next_action(),
    {
        match self.state {
            LoopState::Draining => LoopAction::Drain,
            LoopState::Polling => LoopAction::Poll,
            LoopState::Waiting { .. } => LoopAction::WaitForCompletion,
            LoopState::Offering { at } => LoopAction::Offer(self.batch.decisions[at]),
            LoopState::Executing { at } => LoopAction::Execute(self.batch.decisions[at]),
            LoopState::Closing => LoopAction::Shutdown,
            LoopState::Closed => LoopAction::Exit,
        }
    }

    /// Ask for decisions next.
    fn go_on(&mut self)
        ensures
            *final(self) == (DecisionLoop { state: old(self).again(), ..*old(self) }),
    {
        self.state = if self.background {
            LoopState::Draining
        } else {
            LoopState::Polling
        };
    }

    /// Begin the decision at a place.
    fn arrive(&mut self, at: usize, full: bool)
        requires
            old(self).batch.count <= POLARIS_MAX_DECISIONS_PER_POLL,
        ensures
            *final(self) == (DecisionLoop {
                state: old(self).arriving(at as int, full),
                ..*old(self)
            }),
            final(self).wf(),
    {
        if at >= self.batch.count as usize {
            self.go_on();
            return;
        }
        let offload = self.batch.decisions[at].op == PolarisDecisionOp::Offload.to_u32();
        self.state = if offload && self.test_err == 0 && self.background {
            if full {
                LoopState::Waiting { at }
            } else {
                LoopState::Offering { at }
            }
        } else {
            LoopState::Executing { at }
        };
    }

    /// Take note of what came of the last action.
    pub fn note(&mut self, event: LoopEvent, full: bool)
        requires
            old(self).wf(),
            DecisionLoop::fits(event),
        ensures
            *final(self) == old(self).after(event, full),
            final(self).wf(),
    {
        match self.state {
            LoopState::Draining => {
                self.state = LoopState::Polling;
            },
            LoopState::Polling => match event {
                LoopEvent::Polled(batch) => {
                    self.batch = batch;
                    self.arrive(0, full);
                },
                LoopEvent::PollFailed(errno) => {
                    if errno == ENODEV {
                        self.state = if self.background {
                            LoopState::Closing
                        } else {
                            LoopState::Closed
                        };
                    } else {
                        self.go_on();
                    }
                },
                _ => {},
            },
            LoopState::Waiting { at } => {
                self.state = LoopState::Offering { at };
            },
            LoopState::Offering { at } => match event {
                LoopEvent::Offered(taken) => {
                    if taken {
                        self.arrive(at + 1, full);
                    } else {
                        self.state = LoopState::Executing { at };
                    }
                },
                _ => {},
            },
            LoopState::Executing { at } => {
                self.arrive(at + 1, full);
            },
            LoopState::Closing => {
                self.state = LoopState::Closed;
            },
            LoopState::Closed => {},
        }
    }
}

/// The place in the batch that the loop has come to; behind the end where it
/// asks for decisions.
pub open spec fn place_in_batch(l: DecisionLoop) -> int {
    match l.state {
        LoopState::Waiting { at } => at as int,
        LoopState::Offering { at } => at as int,
        LoopState::Executing { at } => at as int,
        _ => l.batch.count as int,
    }
}

/// Decisions are dealt with in order, and none is passed over: the loop goes on
/// to the next one only when this one was carried out or its copy was handed to
/// the workers, and it asks for more only when the batch is through.
pub proof fn law_no_decision_is_passed_over(l: DecisionLoop, event: LoopEvent, full: bool)
    requires
        l.wf(),
        place_in_batch(l) < l.batch.count,
        l.state is Offering ==> event is Offered,
    ensures
        ({
            let next = l.after(event, full);
            let dealt_with = l.state is Executing || (l.state is Offering && event == (
            LoopEvent::Offered(true)));
            &&& next.batch == l.batch
            &&& place_in_batch(next) == place_in_batch(l) + (if dealt_with {
                1int
            } else {
                0
            })
        }),
{
}

/// A batch is dealt with from its start.
pub proof fn law_batch_starts_at_its_start(l: DecisionLoop, batch: PolarisGetDecisionArg, full: bool)
    requires
        l.state is Polling,
        batch.count > 0,
    ensures
        l.after(LoopEvent::Polled(batch), full).batch == batch,
        place_in_batch(l.after(LoopEvent::Polled(batch), full)) == 0,
{
}

/// The loop ends only when the device has gone.
pub proof fn law_loop_ends_with_the_device(l: DecisionLoop, event: LoopEvent, full: bool)
    requires
        l.wf(),
        !(l.state is Closing) && !(l.state is Closed),
        l.after(event, full).state is Closing || l.after(event, full).state is Closed,
    ensures
        l.state is Polling,
        event == LoopEvent::PollFailed(ENODEV),
{
}

} // verus!
