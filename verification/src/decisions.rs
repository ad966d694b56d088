//! Handing decisions to the executor, and taking up what became of them.

use crate::abi::{
    PolarisBlockState, PolarisCompleteOperationArg, PolarisDecision, PolarisDecisionOp,
    PolarisGetDecisionArg, POLARIS_MAX_DECISIONS_PER_POLL,
};
use crate::errno::{EFAULT, EINVAL, ENODEV, ENOMEM};
use crate::num::{sat_add, sat_sub};
use crate::seqs::{find, first_index, lemma_first_index};
use crate::state::{block_is, PolarisInner, PolarisView};
use crate::types::{
    PolarisBlock, PolarisCompletedRmBacking, PolarisGpu, POLARIS_MAX_RETRIES,
};
use vstd::prelude::*;

verus! {

// ─── Handing out ────────────────────────────────────────────────────────────

/// How many decisions one poll hands out.
pub open spec fn batch_size(v: PolarisView) -> int {
    if v.daemon_attached == 0 {
        0
    } else if v.pending_decisions.len() <= POLARIS_MAX_DECISIONS_PER_POLL {
        v.pending_decisions.len() as int
    } else {
        POLARIS_MAX_DECISIONS_PER_POLL as int
    }
}

/// The blocks after those that decisions name are touched.
pub open spec fn touched_by(blocks: Seq<PolarisBlock>, ds: Seq<PolarisDecision>, now: u64) -> Seq<
    PolarisBlock,
>
    decreases ds.len(),
{
    if ds.len() == 0 {
        blocks
    } else {
        let before = touched_by(blocks, ds.drop_last(), now);
        match first_index(before, block_is(ds.last().block_id)) {
            Some(i) => before.update(i, PolarisBlock { last_touch_ns: now, ..before[i] }),
            None => before,
        }
    }
}

/// The state after a poll: the batch leaves the queue, and its blocks count as
/// touched.
pub open spec fn polled(v: PolarisView, now: u64) -> PolarisView {
    let n = batch_size(v);
    PolarisView {
        pending_decisions: v.pending_decisions.skip(n),
        blocks: touched_by(v.blocks, v.pending_decisions.take(n), now),
        ..v
    }
}

// ─── Taking up ──────────────────────────────────────────────────────────────

/// Blocks that a decision is in flight for.
pub open spec fn awaits(decision_id: u64) -> spec_fn(PolarisBlock) -> bool {
    |b: PolarisBlock| b.pending_decision_id == decision_id
}

/// The resource-manager memory that a completion reports: none, a whole record,
/// or an error where the record has holes.
pub open spec fn reported_backing(arg: PolarisCompleteOperationArg) -> Result<
    Option<PolarisCompletedRmBacking>,
    i32,
> {
    if arg.rm_control_fd == 0 && arg.rm_h_client == 0 && arg.rm_h_memory == 0
        && arg.rm_backing_length == 0 {
        Ok(None)
    } else if arg.rm_h_client == 0 || arg.rm_h_memory == 0 || arg.rm_backing_length == 0 {
        Err(EINVAL)
    } else {
        Ok(
            Some(
                PolarisCompletedRmBacking {
                    rm_control_fd: arg.rm_control_fd,
                    h_client: arg.rm_h_client,
                    h_memory: arg.rm_h_memory,
                    length: arg.rm_backing_length,
                },
            ),
        )
    }
}

/// A block with the memory that a completion reports.
pub open spec fn backed_by(b: PolarisBlock, backing: Option<PolarisCompletedRmBacking>) -> PolarisBlock {
    match backing {
        Some(m) => PolarisBlock {
            rm_control_fd: m.rm_control_fd,
            rm_h_client: m.h_client,
            rm_h_memory: m.h_memory,
            rm_backing_length: m.length,
            rm_backing_offset: 0,
            ..b
        },
        None => b.without_rm_backing(),
    }
}

/// A block with nothing in flight.
pub open spec fn settled(b: PolarisBlock) -> PolarisBlock {
    PolarisBlock {
        pending_decision_id: 0,
        pending_fault_id: 0,
        pending_generation: 0,
        ..b
    }
}

/// A block after its operation succeeded.
pub open spec fn completed_block(
    b: PolarisBlock,
    arg: PolarisCompleteOperationArg,
    backing: Option<PolarisCompletedRmBacking>,
    now: u64,
) -> PolarisBlock {
    let idle = PolarisBlock { retry_count: 0, waiter: 0, ..settled(b) };
    match b.state {
        PolarisBlockState::AllocPending => backed_by(
            PolarisBlock {
                state: PolarisBlockState::Resident,
                gpu_phys_handle: arg.output_handle,
                map_time_ns: now,
                ..idle
            },
            backing,
        ),
        PolarisBlockState::ReloadPending | PolarisBlockState::CowPending => backed_by(
            PolarisBlock {
                state: PolarisBlockState::Resident,
                gpu_phys_handle: arg.output_handle,
                map_time_ns: now,
                last_touch_ns: now,
                cpu_buf_addr: 0,
                ..idle
            },
            backing,
        ),
        PolarisBlockState::OffloadPending => PolarisBlock {
            state: PolarisBlockState::CpuOffloaded,
            cpu_buf_addr: arg.output_cpu_addr,
            gpu_phys_handle: 0,
            ..idle.without_rm_backing()
        },
        PolarisBlockState::FreePending => PolarisBlock {
            state: PolarisBlockState::Evicted,
            ..idle.without_rm_backing()
        },
        _ => idle,
    }
}

/// A GPU's books after an operation on one of its blocks succeeded.
pub open spec fn completed_gpu(gpu: PolarisGpu, b: PolarisBlock) -> PolarisGpu {
    match b.state {
        PolarisBlockState::AllocPending | PolarisBlockState::CowPending => PolarisGpu {
            used_bytes: (gpu.used_bytes + b.size_bytes) as u64,
            ..gpu
        },
        PolarisBlockState::ReloadPending => PolarisGpu {
            used_bytes: (gpu.used_bytes + b.size_bytes) as u64,
            cpu_pool_used_bytes: sat_sub(gpu.cpu_pool_used_bytes, b.size_bytes),
            ..gpu
        },
        PolarisBlockState::OffloadPending => PolarisGpu {
            used_bytes: sat_sub(gpu.used_bytes, b.size_bytes),
            cpu_pool_used_bytes: (gpu.cpu_pool_used_bytes + b.size_bytes) as u64,
            ..gpu
        },
        PolarisBlockState::FreePending => if b.cpu_buf_addr != 0 {
            PolarisGpu {
                cpu_pool_used_bytes: sat_sub(gpu.cpu_pool_used_bytes, b.size_bytes),
                ..gpu
            }
        } else {
            PolarisGpu { used_bytes: sat_sub(gpu.used_bytes, b.size_bytes), ..gpu }
        },
        _ => gpu,
    }
}

/// The state after the operation on block `i` succeeded. A freed block leaves
/// every table.
pub open spec fn succeeding(
    v: PolarisView,
    i: int,
    arg: PolarisCompleteOperationArg,
    backing: Option<PolarisCompletedRmBacking>,
    now: u64,
) -> PolarisView {
    let b = v.blocks[i];
    let w = PolarisView {
        blocks: v.blocks.update(i, completed_block(b, arg, backing, now)),
        gpus: match v.find_gpu(b.home_gpu) {
            Some(g) => v.gpus.update(g, completed_gpu(v.gpus[g], b)),
            None => v.gpus,
        },
        offload_count: if b.state is OffloadPending {
            sat_add(v.offload_count, 1)
        } else {
            v.offload_count
        },
        reload_count: if b.state is ReloadPending {
            sat_add(v.reload_count, 1)
        } else {
            v.reload_count
        },
        cow_break_count: if b.state is CowPending {
            sat_add(v.cow_break_count, 1)
        } else {
            v.cow_break_count
        },
        cow_copy_bytes: if b.state is CowPending {
            sat_add(v.cow_copy_bytes, b.size_bytes)
        } else {
            v.cow_copy_bytes
        },
        ..v
    };
    if b.state is FreePending {
        let x = w.forgetting_static_blocks_of(b.block_id);
        PolarisView { blocks: x.blocks.remove(i), ..x }.without_mappings_of(
            b.block_id,
        ).without_listing(b.session_id, b.block_id)
    } else {
        w
    }
}

/// What a retried decision asks for: what the one that failed did.
pub open spec fn retry_op(b: PolarisBlock) -> PolarisDecisionOp {
    match b.state {
        PolarisBlockState::OffloadPending => PolarisDecisionOp::Offload,
        PolarisBlockState::ReloadPending => PolarisDecisionOp::Reload,
        PolarisBlockState::CowPending => PolarisDecisionOp::CowBreak,
        PolarisBlockState::FreePending => PolarisDecisionOp::Free,
        PolarisBlockState::Resident => PolarisDecisionOp::MapExisting,
        PolarisBlockState::AllocPending => if b.map_src_handle != 0 {
            PolarisDecisionOp::MapExisting
        } else {
            PolarisDecisionOp::Alloc
        },
        _ => PolarisDecisionOp::Alloc,
    }
}

/// The memory that a retried decision starts from.
pub open spec fn retry_source(b: PolarisBlock) -> u64 {
    match b.state {
        PolarisBlockState::OffloadPending | PolarisBlockState::FreePending
        | PolarisBlockState::Resident => b.gpu_phys_handle,
        PolarisBlockState::CowPending => b.cow_src_handle,
        PolarisBlockState::AllocPending => b.map_src_handle,
        _ => 0,
    }
}

/// The address whose contents a retried decision moves or gives back.
pub open spec fn retry_from(b: PolarisBlock) -> u64 {
    if b.state is OffloadPending || b.state is FreePending {
        b.gpu_vaddr
    } else {
        0
    }
}

/// The address that a retried decision puts memory at.
pub open spec fn retry_to(b: PolarisBlock) -> u64 {
    if b.state is OffloadPending || b.state is FreePending {
        0
    } else {
        b.gpu_vaddr
    }
}

/// A decision asks for what a block that stands where it does waits for: the
/// operation, its size and the generation that is to answer it; the memory and the
/// address that it starts from, or the address that it puts memory at; and the
/// buffer.
pub open spec fn asks_for(d: PolarisDecision, b: PolarisBlock) -> bool {
    let op = retry_op(b);
    &&& d.block_id == b.block_id
    &&& d.op == op.code()
    &&& d.size_bytes == b.size_bytes
    &&& d.generation == b.pending_generation
    &&& op is Offload || op is CowBreak || op is Free || op is MapExisting ==> d.src_handle
        == retry_source(b)
    &&& op is CowBreak ==> d._reserved == b.cow_source()
    &&& op is Offload || op is Free ==> d.src_vaddr == b.gpu_vaddr
    &&& d.dst_vaddr == retry_to(b)
    &&& op is Reload || op is Free ==> d.cpu_addr == b.cpu_buf_addr
}

/// The decision that asks once more for what failed.
pub open spec fn retry_decision(decision_id: u64, b: PolarisBlock) -> PolarisDecision {
    PolarisDecision {
        decision_id,
        fault_id: 0,
        generation: b.pending_generation,
        op: retry_op(b).code(),
        gpu_id: b.home_gpu,
        block_id: b.block_id,
        session_id: b.session_id,
        src_handle: retry_source(b),
        dst_handle: 0,
        src_vaddr: retry_from(b),
        dst_vaddr: retry_to(b),
        size_bytes: b.size_bytes,
        cpu_addr: if b.state is ReloadPending || b.state is FreePending {
            b.cpu_buf_addr
        } else {
            0
        },
        access_flags: 0,
        timeout_ms: 0,
        _reserved: if b.state is CowPending {
            b.cow_source()
        } else {
            [0u64, 0u64, 0u64, 0u64]
        },
    }
}

/// The state after the decision about block `i` is queued once more.
pub open spec fn requeueing(v: PolarisView, i: int) -> PolarisView {
    let b = v.blocks[i];
    PolarisView {
        next_decision_id: (v.next_decision_id + 1) as u64,
        blocks: v.blocks.update(
            i,
            PolarisBlock { pending_decision_id: v.next_decision_id, ..b },
        ),
        pending_decisions: v.pending_decisions.push(retry_decision(v.next_decision_id, b)),
        ..v
    }
}

/// The state after block `i` is given up.
pub open spec fn giving_up(v: PolarisView, i: int) -> PolarisView {
    v.with_block(
        i,
        PolarisBlock {
            state: PolarisBlockState::Evicted,
            ..settled(v.blocks[i].without_rm_backing())
        },
    )
}

/// A failure after which the operation is tried once more: out of memory up to
/// twice, a bad address once.
pub open spec fn retried(result: i32, failures: int) -> bool {
    (result == -ENOMEM && failures < POLARIS_MAX_RETRIES) || (result == -EFAULT && failures < 2)
}

/// The state after the operation on block `i` failed; a lost device makes its
/// GPU unhealthy. Where the block is lost, its waiter is to be woken.
pub open spec fn failing(v: PolarisView, i: int, result: i32) -> PolarisView {
    let failures = v.blocks[i].retry_count + 1;
    let w = v.with_block(i, PolarisBlock { retry_count: failures as u32, ..v.blocks[i] });
    let x = if retried(result, failures) {
        requeueing(w, i)
    } else if result == -ENODEV {
        giving_up(
            PolarisView {
                gpus: match w.find_gpu(w.blocks[i].home_gpu) {
                    Some(g) => w.gpus.update(g, PolarisGpu { healthy: false, ..w.gpus[g] }),
                    None => w.gpus,
                },
                ..w
            },
            i,
        )
    } else {
        giving_up(w, i)
    };
    if x.blocks[i].state is Evicted {
        PolarisView {
            total_evictions: sat_add(x.total_evictions, 1),
            ..x.with_block(i, PolarisBlock { waiter: 0, ..x.blocks[i] })
        }
    } else {
        x
    }
}

/// What comes of a completion: the waiter to wake (zero for none), or an error,
/// and the state after it. A completion that no block waits for, or of another
/// generation, is dropped.
pub open spec fn completing(v: PolarisView, arg: PolarisCompleteOperationArg, now: u64) -> (Result<
    u64,
    i32,
>, PolarisView) {
    match first_index(v.blocks, awaits(arg.decision_id)) {
        None => (Ok(0), v),
        Some(i) => {
            let b = v.blocks[i];
            if b.pending_generation != 0 && b.pending_generation != arg.generation {
                (Ok(0), v)
            } else if arg.result == 0 {
                match reported_backing(arg) {
                    Err(e) => (Err(e), v),
                    Ok(backing) => if backing matches Some(m) && m.length < b.size_bytes {
                        (Err(EINVAL), v)
                    } else {
                        (Ok(b.waiter), succeeding(v, i, arg, backing, now))
                    },
                }
            } else {
                let w = failing(v, i, arg.result);
                (
                    Ok(
                        if w.blocks[i].state is Evicted {
                            b.waiter
                        } else {
                            0
                        },
                    ),
                    w,
                )
            }
        },
    }
}

/// The books of the GPU have room for what a completion reports.
pub open spec fn completion_fits(v: PolarisView, arg: PolarisCompleteOperationArg) -> bool {
    match first_index(v.blocks, awaits(arg.decision_id)) {
        None => true,
        Some(i) => {
            let b = v.blocks[i];
            if arg.result != 0 {
                b.retry_count < u32::MAX && v.next_decision_id < u64::MAX
            } else {
                match v.find_gpu(b.home_gpu) {
                    None => true,
                    Some(g) => {
                        &&& (b.state is AllocPending || b.state is CowPending
                            || b.state is ReloadPending) ==> v.gpus[g].used_bytes + b.size_bytes
                            <= u64::MAX
                        &&& b.state is OffloadPending ==> v.gpus[g].cpu_pool_used_bytes
                            + b.size_bytes <= u64::MAX
                    },
                }
            }
        },
    }
}

// ─── Laws ───────────────────────────────────────────────────────────────────

/// Polling hands the queue out in order and drops nothing: what was handed out
/// and what is left make up the queue.
pub proof fn law_poll_keeps_queue_order(v: PolarisView, now: u64)
    ensures
        v.pending_decisions.take(batch_size(v)) + polled(v, now).pending_decisions
            == v.pending_decisions,
        v.daemon_attached == 0 ==> polled(v, now) == v,
{
    assert(v.pending_decisions.take(batch_size(v)) + v.pending_decisions.skip(batch_size(v))
        =~= v.pending_decisions);
    if v.daemon_attached == 0 {
        assert(v.pending_decisions.skip(0) =~= v.pending_decisions);
        assert(v.pending_decisions.take(0) =~= Seq::empty());
        assert(polled(v, now) =~= v);
    }
}

/// A completion for a decision that no block waits for, or that was made before
/// the block's present generation, changes nothing.
pub proof fn law_stale_completion_changes_nothing(
    v: PolarisView,
    arg: PolarisCompleteOperationArg,
    now: u64,
)
    requires
        forall|i: int|
            #![trigger v.blocks[i]]
            0 <= i < v.blocks.len() && v.blocks[i].pending_decision_id == arg.decision_id
                ==> v.blocks[i].pending_generation != 0 && v.blocks[i].pending_generation
                != arg.generation,
    ensures
        completing(v, arg, now) == (Ok::<u64, i32>(0), v),
{
    lemma_first_index(v.blocks, awaits(arg.decision_id));
}

/// Whatever is reported, blocks other than the one that the decision is about
/// keep their place and value, but for the gap that a freed block leaves.
pub proof fn law_completion_touches_one_block(
    v: PolarisView,
    arg: PolarisCompleteOperationArg,
    now: u64,
)
    ensures
        ({
            let w = completing(v, arg, now).1;
            match first_index(v.blocks, awaits(arg.decision_id)) {
                None => w.blocks == v.blocks,
                Some(i) => {
                    ||| w.blocks.len() == v.blocks.len() && forall|j: int|
                        0 <= j < v.blocks.len() && j != i ==> #[trigger] w.blocks[j] == v.blocks[j]
                    ||| v.blocks[i].state is FreePending && w.blocks == v.blocks.remove(i)
                },
            }
        }),
{
    lemma_first_index(v.blocks, awaits(arg.decision_id));
    if let Some(i) = first_index(v.blocks, awaits(arg.decision_id)) {
        let c = reported_backing(arg);
        if c is Ok && v.blocks[i].state is FreePending {
            assert(v.blocks.update(i, completed_block(v.blocks[i], arg, c->Ok_0, now)).remove(i)
                =~= v.blocks.remove(i));
        }
    }
}

/// A move to host memory and the way back leave a GPU's books as they were.
pub proof fn law_offload_then_reload_restores_books(gpu: PolarisGpu, b: PolarisBlock)
    requires
        b.state is OffloadPending,
        b.size_bytes <= gpu.used_bytes,
        gpu.cpu_pool_used_bytes + b.size_bytes <= u64::MAX,
    ensures
        completed_gpu(
            completed_gpu(gpu, b),
            PolarisBlock { state: PolarisBlockState::ReloadPending, ..b },
        ) == gpu,
{
}

/// Allocating and then freeing leaves a GPU's books as they were.
pub proof fn law_alloc_then_free_restores_books(gpu: PolarisGpu, b: PolarisBlock)
    requires
        b.state is AllocPending || b.state is CowPending,
        b.cpu_buf_addr == 0,
        gpu.used_bytes + b.size_bytes <= u64::MAX,
    ensures
        completed_gpu(
            completed_gpu(gpu, b),
            PolarisBlock { state: PolarisBlockState::FreePending, ..b },
        ) == gpu,
{
}

/// A decision that failed and is tried once more asks for what it asked for, to be
/// answered in the same generation, under a number of its own. `d` is the decision
/// that failed.
pub proof fn law_retry_asks_for_the_same(v: PolarisView, i: int, result: i32, d: PolarisDecision)
    requires
        0 <= i < v.blocks.len(),
        !(v.blocks[i].state is Evicted),
        retried(result, v.blocks[i].retry_count + 1),
        asks_for(d, v.blocks[i]),
    ensures
        ({
            let b = v.blocks[i];
            let w = failing(v, i, result);
            let again = w.pending_decisions.last();
            &&& w.pending_decisions == v.pending_decisions.push(again)
            &&& again.decision_id == v.next_decision_id
            &&& again.block_id == d.block_id
            &&& again.op == d.op
            &&& again.generation == d.generation
            &&& again.size_bytes == d.size_bytes
            &&& again.dst_vaddr == d.dst_vaddr
            &&& asks_for(again, w.blocks[i])
            &&& w.blocks[i] == (PolarisBlock {
                pending_decision_id: v.next_decision_id,
                retry_count: (b.retry_count + 1) as u32,
                ..b
            })
        }),
{
}

/// A block is lost after at most three failures in a row.
pub proof fn law_third_failure_is_final(v: PolarisView, i: int, result: i32)
    requires
        0 <= i < v.blocks.len(),
        v.blocks[i].retry_count >= 2,
        v.blocks[i].retry_count < u32::MAX,
    ensures
        failing(v, i, result).blocks[i].state is Evicted,
{
}

// ─── Handling ───────────────────────────────────────────────────────────────

/// The resource-manager memory that a completion reports.
pub fn complete_rm_backing(arg: &PolarisCompleteOperationArg) -> (r: Result<
    Option<PolarisCompletedRmBacking>,
    i32,
>)
    ensures
        r == reported_backing(*arg),
{
    let has_backing = arg.rm_control_fd != 0 || arg.rm_h_client != 0 || arg.rm_h_memory != 0
        || arg.rm_backing_length != 0;
    if !has_backing {
        return Ok(None);
    }
    if arg.rm_h_client == 0 || arg.rm_h_memory == 0 || arg.rm_backing_length == 0 {
        return Err(EINVAL);
    }
    Ok(
        Some(
            PolarisCompletedRmBacking {
                rm_control_fd: arg.rm_control_fd,
                h_client: arg.rm_h_client,
                h_memory: arg.rm_h_memory,
                length: arg.rm_backing_length,
            },
        ),
    )
}

/// Give a block the memory that a completion reports.
pub fn apply_completed_rm_backing(
    block: &mut PolarisBlock,
    backing: Option<PolarisCompletedRmBacking>,
)
    ensures
        *final(block) == backed_by(*old(block), backing),
{
    match backing {
        Some(m) => {
            block.rm_control_fd = m.rm_control_fd;
            block.rm_h_client = m.h_client;
            block.rm_h_memory = m.h_memory;
            block.rm_backing_length = m.length;
            block.rm_backing_offset = 0;
        },
        None => {
            block.clear_rm_backing();
        },
    }
}

impl PolarisInner {
    /// Hand out the next decisions, at most sixteen; none while no executor is
    /// attached. `now` is the monotonic time in nanoseconds.
    pub fn get_decision(&mut self, arg: PolarisGetDecisionArg, now: u64) -> (r: PolarisGetDecisionArg)
        ensures
            final(self)@ == polled(old(self)@, now),
            r.count == batch_size(old(self)@),
            r._reserved == arg._reserved,
            forall|i: int|
                0 <= i < batch_size(old(self)@) ==> #[trigger] r.decisions@[i] == old(
                    self,
                )@.pending_decisions[i],
            forall|i: int|
                batch_size(old(self)@) <= i < 16 ==> #[trigger] r.decisions@[i]
                    == arg.decisions@[i],
    {
        let ghost v = self@;
        let mut out = arg;
        if self.daemon_attached == 0 {
            out.count = 0;
            proof {
                law_poll_keeps_queue_order(v, now);
            }
            return out;
        }
        let count: usize = if self.pending_decisions.len() <= POLARIS_MAX_DECISIONS_PER_POLL {
            self.pending_decisions.len()
        } else {
            POLARIS_MAX_DECISIONS_PER_POLL
        };
        let ghost batch = v.pending_decisions.take(count as int);
        out.count = count as u32;
        let mut i: usize = 0;
        while i < count
            invariant
                0 <= i <= count <= 16,
                count == batch_size(v),
                v.daemon_attached != 0,
                batch == v.pending_decisions.take(count as int),
                count <= v.pending_decisions.len(),
                self@ == (PolarisView {
                    blocks: touched_by(v.blocks, batch.take(i as int), now),
                    ..v
                }),
                self.pending_decisions@ == v.pending_decisions,
                out.count == count,
                out._reserved == arg._reserved,
                forall|k: int|
                    0 <= k < i ==> #[trigger] out.decisions@[k] == v.pending_decisions[k],
                forall|k: int| i <= k < 16 ==> #[trigger] out.decisions@[k] == arg.decisions@[k],
            decreases count - i,
        {
            let d = self.pending_decisions[i];
            out.decisions[i] = d;
            assert(batch.take(i as int + 1).drop_last() =~= batch.take(i as int));
            assert(batch.take(i as int + 1).last() == d);
            if let Some(k) = self.find_block(d.block_id) {
                self.blocks[k].last_touch_ns = now;
            }
            i += 1;
        }
        assert(batch.take(count as int) =~= batch);
        let rest = self.pending_decisions.split_off(count);
        self.pending_decisions = rest;
        assert(self@ =~= polled(v, now));
        out
    }

    /// Queue the decision about block `i` once more, for the same operation.
    fn requeue_decision(&mut self, i: usize)
        requires
            i < old(self)@.blocks.len(),
            old(self)@.next_decision_id < u64::MAX,
        ensures
            final(self)@ == requeueing(old(self)@, i as int),
    {
        let block = self.blocks[i];
        let decision_id: u64 = self.next_decision_id;
        self.next_decision_id = decision_id + 1;
        self.blocks[i].pending_decision_id = decision_id;
        let op = match block.state {
            PolarisBlockState::OffloadPending => PolarisDecisionOp::Offload,
            PolarisBlockState::ReloadPending => PolarisDecisionOp::Reload,
            PolarisBlockState::CowPending => PolarisDecisionOp::CowBreak,
            PolarisBlockState::FreePending => PolarisDecisionOp::Free,
            PolarisBlockState::Resident => PolarisDecisionOp::MapExisting,
            PolarisBlockState::AllocPending => if block.map_src_handle != 0 {
                PolarisDecisionOp::MapExisting
            } else {
                PolarisDecisionOp::Alloc
            },
            _ => PolarisDecisionOp::Alloc,
        };
        let src_handle: u64 = match block.state {
            PolarisBlockState::OffloadPending | PolarisBlockState::FreePending
            | PolarisBlockState::Resident => block.gpu_phys_handle,
            PolarisBlockState::CowPending => block.cow_src_handle,
            PolarisBlockState::AllocPending => block.map_src_handle,
            _ => 0,
        };
        let (src_vaddr, dst_vaddr): (u64, u64) = match block.state {
            PolarisBlockState::OffloadPending | PolarisBlockState::FreePending => (
                block.gpu_vaddr,
                0,
            ),
            _ => (0, block.gpu_vaddr),
        };
        let cpu_addr: u64 = match block.state {
            PolarisBlockState::ReloadPending | PolarisBlockState::FreePending => block.cpu_buf_addr,
            _ => 0,
        };
        let _reserved = match block.state {
            PolarisBlockState::CowPending => block.cow_source_fields(),
            _ => [0u64, 0u64, 0u64, 0u64],
        };
        self.pending_decisions.push(
            PolarisDecision {
                decision_id,
                fault_id: 0,
                generation: block.pending_generation,
                op: op.to_u32(),
                gpu_id: block.home_gpu,
                block_id: block.block_id,
                session_id: block.session_id,
                src_handle,
                dst_handle: 0,
                src_vaddr,
                dst_vaddr,
                size_bytes: block.size_bytes,
                cpu_addr,
                access_flags: 0,
                timeout_ms: 0,
                _reserved,
            },
        );
    }

    /// Give block `i` up.
    fn evict_block(&mut self, i: usize)
        requires
            i < old(self)@.blocks.len(),
        ensures
            final(self)@ == giving_up(old(self)@, i as int),
    {
        let mut block = self.blocks[i];
        block.state = PolarisBlockState::Evicted;
        block.clear_rm_backing();
        block.pending_decision_id = 0;
        block.pending_fault_id = 0;
        block.pending_generation = 0;
        self.blocks[i] = block;
    }

    /// Take up a success on block `i`.
    fn operation_succeeded(
        &mut self,
        i: usize,
        arg: PolarisCompleteOperationArg,
        backing: Option<PolarisCompletedRmBacking>,
        now: u64,
    )
        requires
            i < old(self)@.blocks.len(),
            arg.result == 0,
            completion_fits(old(self)@, arg),
            first_index(old(self)@.blocks, awaits(arg.decision_id)) == Some(i as int),
        ensures
            final(self)@ == succeeding(old(self)@, i as int, arg, backing, now),
    {
        let ghost v = self@;
        let before = self.blocks[i];
        let mut block = before;
        block.retry_count = 0;
        block.pending_decision_id = 0;
        block.pending_fault_id = 0;
        block.pending_generation = 0;
        block.waiter = 0;
        match before.state {
            PolarisBlockState::AllocPending => {
                block.state = PolarisBlockState::Resident;
                block.gpu_phys_handle = arg.output_handle;
                apply_completed_rm_backing(&mut block, backing);
                block.map_time_ns = now;
            },
            PolarisBlockState::OffloadPending => {
                block.state = PolarisBlockState::CpuOffloaded;
                block.cpu_buf_addr = arg.output_cpu_addr;
                // The executor gave the memory up when it copied it.
                block.gpu_phys_handle = 0;
                block.clear_rm_backing();
                self.offload_count = self.offload_count.saturating_add(1);
            },
            PolarisBlockState::ReloadPending => {
                block.state = PolarisBlockState::Resident;
                block.gpu_phys_handle = arg.output_handle;
                apply_completed_rm_backing(&mut block, backing);
                block.map_time_ns = now;
                block.last_touch_ns = now;
                block.cpu_buf_addr = 0;
                self.reload_count = self.reload_count.saturating_add(1);
            },
            PolarisBlockState::CowPending => {
                block.state = PolarisBlockState::Resident;
                block.gpu_phys_handle = arg.output_handle;
                apply_completed_rm_backing(&mut block, backing);
                block.map_time_ns = now;
                block.last_touch_ns = now;
                block.cpu_buf_addr = 0;
                self.cow_break_count = self.cow_break_count.saturating_add(1);
                self.cow_copy_bytes = self.cow_copy_bytes.saturating_add(before.size_bytes);
            },
            PolarisBlockState::FreePending => {
                block.state = PolarisBlockState::Evicted;
                block.clear_rm_backing();
            },
            _ => {},
        }
        self.blocks[i] = block;
        if let Some(g) = self.find_gpu(before.home_gpu) {
            let mut gpu = self.gpus[g];
            match before.state {
                PolarisBlockState::AllocPending | PolarisBlockState::CowPending => {
                    gpu.used_bytes = gpu.used_bytes + before.size_bytes;
                },
                PolarisBlockState::ReloadPending => {
                    gpu.used_bytes = gpu.used_bytes + before.size_bytes;
                    gpu.cpu_pool_used_bytes =
                    gpu.cpu_pool_used_bytes.saturating_sub(before.size_bytes);
                },
                PolarisBlockState::OffloadPending => {
                    gpu.used_bytes = gpu.used_bytes.saturating_sub(before.size_bytes);
                    gpu.cpu_pool_used_bytes = gpu.cpu_pool_used_bytes + before.size_bytes;
                },
                PolarisBlockState::FreePending => {
                    if before.cpu_buf_addr != 0 {
                        gpu.cpu_pool_used_bytes =
                        gpu.cpu_pool_used_bytes.saturating_sub(before.size_bytes);
                    } else {
                        gpu.used_bytes = gpu.used_bytes.saturating_sub(before.size_bytes);
                    }
                },
                _ => {},
            }
            self.gpus[g] = gpu;
        }
        if before.state == PolarisBlockState::FreePending {
            self.forget_static_blocks_for_block(before.block_id);
            let _ = self.blocks.remove(i);
            self.drop_mappings_of(before.block_id);
            self.drop_listing(before.session_id, before.block_id);
        }
        assert(self@ =~= succeeding(v, i as int, arg, backing, now));
    }

    /// Take up a failure on block `i`, and say which waiter to wake.
    fn operation_failed(&mut self, i: usize, result: i32) -> (woken: u64)
        requires
            i < old(self)@.blocks.len(),
            old(self)@.blocks[i as int].retry_count < u32::MAX,
            old(self)@.next_decision_id < u64::MAX,
        ensures
            final(self)@ == failing(old(self)@, i as int, result),
            woken == (if final(self)@.blocks[i as int].state is Evicted {
                old(self)@.blocks[i as int].waiter
            } else {
                0
            }),
    {
        self.blocks[i].retry_count = self.blocks[i].retry_count + 1;
        let retries: u32 = self.blocks[i].retry_count;
        let home_gpu: u32 = self.blocks[i].home_gpu;
        if result == -ENOMEM {
            if retries < POLARIS_MAX_RETRIES {
                self.requeue_decision(i);
            } else {
                self.evict_block(i);
            }
        } else if result == -ENODEV {
            if let Some(g) = self.find_gpu(home_gpu) {
                self.gpus[g].healthy = false;
            }
            self.evict_block(i);
        } else if result == -EFAULT {
            if retries < 2 {
                self.requeue_decision(i);
            } else {
                self.evict_block(i);
            }
        } else {
            self.evict_block(i);
        }
        // A decision that is tried once more keeps its waiter waiting.
        let mut woken: u64 = 0;
        if self.blocks[i].state == PolarisBlockState::Evicted {
            self.total_evictions = self.total_evictions.saturating_add(1);
            woken = self.blocks[i].waiter;
            self.blocks[i].waiter = 0;
        }
        assert(self@ =~= failing(old(self)@, i as int, result));
        woken
    }

    /// Take up what became of a decision, and say which waiter to wake (zero for
    /// none). `now` is the monotonic time in nanoseconds.
    pub fn complete_operation(&mut self, arg: PolarisCompleteOperationArg, now: u64) -> (r: Result<
        u64,
        i32,
    >)
        requires
            completion_fits(old(self)@, arg),
        ensures
            (r, final(self)@) == completing(old(self)@, arg, now),
    {
        let at = find(
            &self.blocks,
            |b: &PolarisBlock| -> (x: bool)
                ensures
                    x == awaits(arg.decision_id)(*b)
                { b.pending_decision_id == arg.decision_id },
            Ghost(awaits(arg.decision_id)),
        );
        let i: usize = match at {
            Some(i) => i,
            None => {
                return Ok(0);
            },
        };
        let block = self.blocks[i];
        if block.pending_generation != 0 && block.pending_generation != arg.generation {
            return Ok(0);
        }
        if arg.result == 0 {
            let backing = match complete_rm_backing(&arg) {
                Ok(m) => m,
                Err(e) => {
                    return Err(e);
                },
            };
            if let Some(m) = backing {
                if m.length < block.size_bytes {
                    return Err(EINVAL);
                }
            }
            self.operation_succeeded(i, arg, backing, now);
            return Ok(block.waiter);
        }
        Ok(self.operation_failed(i, arg.result))
    }
}

} // verus!
