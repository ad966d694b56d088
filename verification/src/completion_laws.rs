//! What an executor's answers are for: what it says it did is what the tables say
//! afterwards.

use crate::abi::PolarisCompleteOperationArg;
use crate::decisions::{awaits, completing, polled};
use crate::errno::EINVAL;
use crate::places::{gpu_at, law_gpu_is_found, law_session_is_found, session_at};
use crate::seqs::{first_index, lemma_filter_members, lemma_first_index_is};
use crate::state::{id_is_not, mapping_not_of, PolarisView};
use crate::types::{PolarisBlock, PolarisBlockMapping, PolarisGpu};
use vstd::prelude::*;

verus! {

// ─── In plain terms ─────────────────────────────────────────────────────────

/// Entry `i` is the first block that waits for the answer, and the answer is of its
/// generation.
pub open spec fn answers(v: PolarisView, arg: PolarisCompleteOperationArg, i: int) -> bool {
    &&& 0 <= i < v.blocks.len()
    &&& v.blocks[i].pending_decision_id == arg.decision_id
    &&& v.blocks[i].pending_generation == 0 || v.blocks[i].pending_generation == arg.generation
    &&& forall|j: int|
        0 <= j < i ==> (#[trigger] v.blocks[j]).pending_decision_id != arg.decision_id
}

/// The answer reports no memory of the resource manager.
pub open spec fn reports_nothing(arg: PolarisCompleteOperationArg) -> bool {
    arg.rm_control_fd == 0 && arg.rm_h_client == 0 && arg.rm_h_memory == 0
        && arg.rm_backing_length == 0
}

/// The answer reports memory of the resource manager of at least so many bytes.
pub open spec fn reports_memory(arg: PolarisCompleteOperationArg, bytes: u64) -> bool {
    arg.rm_h_client != 0 && arg.rm_h_memory != 0 && arg.rm_backing_length != 0
        && arg.rm_backing_length >= bytes
}

/// What identifies a block and where it lies is the same.
pub open spec fn same_block(b: PolarisBlock, c: PolarisBlock) -> bool {
    &&& c.block_id == b.block_id && c.session_id == b.session_id
    &&& c.token_start == b.token_start && c.token_count == b.token_count
    &&& c.home_gpu == b.home_gpu && c.gpu_vaddr == b.gpu_vaddr && c.size_bytes == b.size_bytes
    &&& c.refcount == b.refcount && c.flags == b.flags && c.phase == b.phase
}

/// Nothing is in flight for the block, nobody waits for it, and no failure counts
/// against it.
pub open spec fn at_rest(c: PolarisBlock) -> bool {
    c.pending_decision_id == 0 && c.pending_fault_id == 0 && c.pending_generation == 0 && c.waiter
        == 0 && c.retry_count == 0
}

/// The block has no memory of the resource manager.
pub open spec fn no_rm_memory(c: PolarisBlock) -> bool {
    c.rm_control_fd == 0 && c.rm_h_client == 0 && c.rm_h_memory == 0 && c.rm_backing_length == 0
        && c.rm_backing_offset == 0
}

/// The block that waits is found.
proof fn lemma_answers(v: PolarisView, arg: PolarisCompleteOperationArg, i: int)
    requires
        answers(v, arg, i),
    ensures
        first_index(v.blocks, awaits(arg.decision_id)) == Some(i),
{
    assert forall|j: int| 0 <= j < i implies !awaits(arg.decision_id)(#[trigger] v.blocks[j]) by {}
    lemma_first_index_is(v.blocks, awaits(arg.decision_id), i);
}

// ─── Memory that was brought ────────────────────────────────────────────────

/// Memory that was brought for a block is the block's: it is resident, with the handle
/// and exactly the memory of the resource manager that the executor reports, and the
/// one who waits for it is woken. Nothing else in the tables changes but the books.
pub proof fn law_memory_brought_is_the_blocks(
    v: PolarisView,
    arg: PolarisCompleteOperationArg,
    now: u64,
    i: int,
)
    requires
        answers(v, arg, i),
        arg.result == 0,
        v.blocks[i].state is AllocPending || v.blocks[i].state is ReloadPending
            || v.blocks[i].state is CowPending,
        reports_nothing(arg) || reports_memory(arg, v.blocks[i].size_bytes),
    ensures
        ({
            let b = v.blocks[i];
            let (r, w) = completing(v, arg, now);
            let c = w.blocks[i];
            &&& r == Ok::<u64, i32>(b.waiter)
            &&& w.blocks == v.blocks.update(i, c)
            &&& c.state is Resident && same_block(b, c) && at_rest(c)
            &&& c.gpu_phys_handle == arg.output_handle
            &&& c.rm_control_fd == arg.rm_control_fd && c.rm_h_client == arg.rm_h_client
            &&& c.rm_h_memory == arg.rm_h_memory && c.rm_backing_length == arg.rm_backing_length
            &&& c.rm_backing_offset == 0
            &&& c.map_time_ns == now
            &&& !(b.state is AllocPending) ==> c.last_touch_ns == now && c.cpu_buf_addr == 0
            &&& b.state is AllocPending ==> c.last_touch_ns == b.last_touch_ns
            &&& w.sessions == v.sessions && w.block_mappings == v.block_mappings
            &&& w.pending_decisions == v.pending_decisions && w.next_decision_id
                == v.next_decision_id
        }),
{
    lemma_answers(v, arg, i);
}

/// A record of memory with holes, or of less memory than the block needs, is refused
/// and changes nothing.
pub proof fn law_unfit_memory_is_refused(
    v: PolarisView,
    arg: PolarisCompleteOperationArg,
    now: u64,
    i: int,
)
    requires
        answers(v, arg, i),
        arg.result == 0,
        !reports_nothing(arg),
        !reports_memory(arg, v.blocks[i].size_bytes),
    ensures
        completing(v, arg, now) == (Err::<u64, i32>(EINVAL), v),
{
    lemma_answers(v, arg, i);
}

/// The books of a GPU follow the memory of its blocks: what is brought is used, what
/// comes back from the host is used and leaves the host pool, what goes there does the
/// opposite, and what is freed leaves the side it was on. No other GPU's books change.
pub proof fn law_books_follow_the_memory(
    v: PolarisView,
    arg: PolarisCompleteOperationArg,
    now: u64,
    i: int,
    g: int,
)
    requires
        answers(v, arg, i),
        arg.result == 0,
        reports_nothing(arg) || reports_memory(arg, v.blocks[i].size_bytes),
        gpu_at(v, v.blocks[i].home_gpu, g),
        v.blocks[i].size_bytes <= v.gpus[g].used_bytes || v.blocks[i].state is AllocPending
            || v.blocks[i].state is CowPending || v.blocks[i].state is ReloadPending,
        v.gpus[g].used_bytes + v.blocks[i].size_bytes <= u64::MAX,
        v.gpus[g].cpu_pool_used_bytes + v.blocks[i].size_bytes <= u64::MAX,
    ensures
        ({
            let b = v.blocks[i];
            let w = completing(v, arg, now).1;
            let h = w.gpus[g];
            let o = v.gpus[g];
            let host_left = if o.cpu_pool_used_bytes >= b.size_bytes {
                o.cpu_pool_used_bytes - b.size_bytes
            } else {
                0
            };
            &&& w.gpus == v.gpus.update(g, h)
            &&& h == (PolarisGpu {
                used_bytes: h.used_bytes,
                cpu_pool_used_bytes: h.cpu_pool_used_bytes,
                ..o
            })
            &&& b.state is AllocPending || b.state is CowPending ==> h.used_bytes == o.used_bytes
                + b.size_bytes && h.cpu_pool_used_bytes == o.cpu_pool_used_bytes
            &&& b.state is ReloadPending ==> h.used_bytes == o.used_bytes + b.size_bytes
                && h.cpu_pool_used_bytes == host_left
            &&& b.state is OffloadPending ==> h.used_bytes == o.used_bytes - b.size_bytes
                && h.cpu_pool_used_bytes == o.cpu_pool_used_bytes + b.size_bytes
            &&& b.state is FreePending && b.cpu_buf_addr == 0 ==> h.used_bytes == o.used_bytes
                - b.size_bytes && h.cpu_pool_used_bytes == o.cpu_pool_used_bytes
            &&& b.state is FreePending && b.cpu_buf_addr != 0 ==> h.used_bytes == o.used_bytes
                && h.cpu_pool_used_bytes == host_left
            &&& b.state is Resident ==> h == o
        }),
{
    lemma_answers(v, arg, i);
    law_gpu_is_found(v, v.blocks[i].home_gpu);
    let w = completing(v, arg, now).1;
    let b = v.blocks[i];
    if !(b.state is OffloadPending || b.state is FreePending || b.state is ReloadPending
        || b.state is AllocPending || b.state is CowPending) {
        assert(v.gpus.update(g, v.gpus[g]) =~= v.gpus);
    }
    assert(w.gpus =~= v.gpus.update(g, w.gpus[g]));
}

/// Each move is counted once: what goes to the host, what comes back, what is copied
/// and how large it was.
pub proof fn law_moves_are_counted(
    v: PolarisView,
    arg: PolarisCompleteOperationArg,
    now: u64,
    i: int,
)
    requires
        answers(v, arg, i),
        arg.result == 0,
        reports_nothing(arg) || reports_memory(arg, v.blocks[i].size_bytes),
        v.offload_count < u64::MAX,
        v.reload_count < u64::MAX,
        v.cow_break_count < u64::MAX,
        v.cow_copy_bytes + v.blocks[i].size_bytes <= u64::MAX,
    ensures
        ({
            let b = v.blocks[i];
            let w = completing(v, arg, now).1;
            &&& w.offload_count == v.offload_count + (if b.state is OffloadPending {
                1int
            } else {
                0
            })
            &&& w.reload_count == v.reload_count + (if b.state is ReloadPending {
                1int
            } else {
                0
            })
            &&& w.cow_break_count == v.cow_break_count + (if b.state is CowPending {
                1int
            } else {
                0
            })
            &&& w.cow_copy_bytes == v.cow_copy_bytes + (if b.state is CowPending {
                b.size_bytes as int
            } else {
                0
            })
            &&& w.total_evictions == v.total_evictions
        }),
{
    lemma_answers(v, arg, i);
    let w = completing(v, arg, now).1;
    if v.blocks[i].state is FreePending {
        law_session_is_found(w, v.blocks[i].session_id);
    }
}

// ─── Memory that went ───────────────────────────────────────────────────────

/// A block that went to the host is where the executor says, and has no memory on the
/// GPU any more; it keeps its id, tokens and addresses.
pub proof fn law_block_that_went_is_on_the_host(
    v: PolarisView,
    arg: PolarisCompleteOperationArg,
    now: u64,
    i: int,
)
    requires
        answers(v, arg, i),
        arg.result == 0,
        v.blocks[i].state is OffloadPending,
        reports_nothing(arg) || reports_memory(arg, v.blocks[i].size_bytes),
    ensures
        ({
            let b = v.blocks[i];
            let (r, w) = completing(v, arg, now);
            let c = w.blocks[i];
            &&& r == Ok::<u64, i32>(b.waiter)
            &&& w.blocks == v.blocks.update(i, c)
            &&& c.state is CpuOffloaded && same_block(b, c) && at_rest(c)
            &&& c.cpu_buf_addr == arg.output_cpu_addr
            &&& c.gpu_phys_handle == 0 && no_rm_memory(c)
            &&& c.map_time_ns == b.map_time_ns && c.last_touch_ns == b.last_touch_ns
            &&& w.sessions == v.sessions && w.block_mappings == v.block_mappings
            &&& w.pending_decisions == v.pending_decisions
        }),
{
    lemma_answers(v, arg, i);
}

/// A block whose memory was freed is in no table: its entry, its mappings and its place
/// on its session's list are gone, and nothing else is.
pub proof fn law_freed_block_is_gone(
    v: PolarisView,
    arg: PolarisCompleteOperationArg,
    now: u64,
    i: int,
)
    requires
        answers(v, arg, i),
        arg.result == 0,
        v.blocks[i].state is FreePending,
        reports_nothing(arg) || reports_memory(arg, v.blocks[i].size_bytes),
    ensures
        ({
            let b = v.blocks[i];
            let (r, w) = completing(v, arg, now);
            &&& r == Ok::<u64, i32>(b.waiter)
            &&& w.blocks == v.blocks.remove(i)
            &&& forall|m: PolarisBlockMapping| #[trigger]
                w.block_mappings.contains(m) <==> v.block_mappings.contains(m) && m.block_id
                    != b.block_id
            &&& w.sessions.len() == v.sessions.len()
            &&& forall|k: int, id: u64|
                #![trigger w.sessions[k].block_ids.contains(id)]
                session_at(v, b.session_id, k) ==> (w.sessions[k].block_ids.contains(id)
                    <==> v.sessions[k].block_ids.contains(id) && id != b.block_id)
            &&& forall|k: int|
                0 <= k < v.sessions.len() && !session_at(v, b.session_id, k)
                    ==> #[trigger] w.sessions[k] == v.sessions[k]
            &&& w.pending_decisions == v.pending_decisions
        }),
{
    lemma_answers(v, arg, i);
    let b = v.blocks[i];
    let w = completing(v, arg, now).1;
    law_session_is_found(v, b.session_id);
    lemma_filter_members(v.block_mappings, mapping_not_of(b.block_id));
    assert(v.blocks.update(
        i,
        crate::decisions::completed_block(
            b,
            arg,
            crate::decisions::reported_backing(arg)->Ok_0,
            now,
        ),
    ).remove(i) =~= v.blocks.remove(i));
    let x = PolarisView { blocks: w.blocks, block_mappings: w.block_mappings, ..v };
    assert(x.find_session(b.session_id) == v.find_session(b.session_id));
    assert forall|k: int, id: u64|
        #![trigger w.sessions[k].block_ids.contains(id)]
        session_at(v, b.session_id, k) implies (w.sessions[k].block_ids.contains(id)
        <==> v.sessions[k].block_ids.contains(id) && id != b.block_id) by {
        lemma_filter_members(v.sessions[k].block_ids, id_is_not(b.block_id));
    }
}

/// A mapping of a block that has its memory already changes nothing about it but that
/// nothing is in flight any more.
pub proof fn law_mapped_block_is_at_rest(
    v: PolarisView,
    arg: PolarisCompleteOperationArg,
    now: u64,
    i: int,
)
    requires
        answers(v, arg, i),
        arg.result == 0,
        v.blocks[i].state is Resident,
        reports_nothing(arg),
    ensures
        ({
            let b = v.blocks[i];
            let (r, w) = completing(v, arg, now);
            let c = w.blocks[i];
            &&& r == Ok::<u64, i32>(b.waiter)
            &&& w.blocks == v.blocks.update(i, c)
            &&& at_rest(c)
            &&& c == (PolarisBlock {
                pending_decision_id: 0,
                pending_fault_id: 0,
                pending_generation: 0,
                waiter: 0,
                retry_count: 0,
                ..b
            })
        }),
{
    lemma_answers(v, arg, i);
}

// ─── Failures ───────────────────────────────────────────────────────────────

/// Out of memory is tried three times and a bad address twice; until then the block
/// stands where it stood, one failure more counts against it, and whoever waits goes on
/// waiting. The decision is queued once more under a number of its own.
pub proof fn law_failure_is_tried_once_more(
    v: PolarisView,
    arg: PolarisCompleteOperationArg,
    now: u64,
    i: int,
)
    requires
        answers(v, arg, i),
        !(v.blocks[i].state is Evicted),
        (arg.result == -12 && v.blocks[i].retry_count < 2) || (arg.result == -14
            && v.blocks[i].retry_count < 1),
        v.next_decision_id < u64::MAX,
    ensures
        ({
            let b = v.blocks[i];
            let (r, w) = completing(v, arg, now);
            let c = w.blocks[i];
            let d = w.pending_decisions.last();
            &&& r == Ok::<u64, i32>(0)
            &&& w.blocks == v.blocks.update(i, c)
            &&& c == (PolarisBlock {
                retry_count: (b.retry_count + 1) as u32,
                pending_decision_id: v.next_decision_id,
                ..b
            })
            &&& w.pending_decisions == v.pending_decisions.push(d)
            &&& d.decision_id == v.next_decision_id && d.block_id == b.block_id
            &&& d.size_bytes == b.size_bytes && d.gpu_id == b.home_gpu && d.session_id
                == b.session_id
            &&& d.generation == b.pending_generation && w.next_decision_id == v.next_decision_id + 1
            &&& b.state is OffloadPending || b.state is FreePending ==> d.dst_vaddr == 0
                && d.src_vaddr == b.gpu_vaddr
            &&& b.state is CowPending && b.cow_src_block_id != 0 ==> d._reserved[0]
                == b.cow_src_block_id && d._reserved[1] == 1
            &&& b.state is CowPending && b.cow_src_block_id == 0 ==> d._reserved[1] == 0
            &&& b.state is OffloadPending ==> d.op == 4 && d.src_handle == b.gpu_phys_handle
                && d.src_vaddr == b.gpu_vaddr
            &&& b.state is ReloadPending ==> d.op == 5 && d.cpu_addr == b.cpu_buf_addr
                && d.dst_vaddr == b.gpu_vaddr
            &&& b.state is CowPending ==> d.op == 6 && d.src_handle == b.cow_src_handle
                && d.dst_vaddr == b.gpu_vaddr
            &&& b.state is FreePending ==> d.op == 1 && d.src_handle == b.gpu_phys_handle
                && d.cpu_addr == b.cpu_buf_addr
            &&& b.state is AllocPending && b.map_src_handle == 0 ==> d.op == 0 && d.dst_vaddr
                == b.gpu_vaddr
            &&& b.state is AllocPending && b.map_src_handle != 0 ==> d.op == 2 && d.src_handle
                == b.map_src_handle && d.dst_vaddr == b.gpu_vaddr
            &&& w.gpus == v.gpus && w.sessions == v.sessions && w.total_evictions
                == v.total_evictions
        }),
{
    lemma_answers(v, arg, i);
}

/// Any other failure, and one too many, loses the block: it is evicted, its memory of
/// the resource manager is forgotten, nothing is in flight for it, the loss is counted
/// and whoever waits is woken. Nothing is queued. A device that is gone makes its GPU
/// unhealthy; no other failure does.
pub proof fn law_failure_loses_the_block(
    v: PolarisView,
    arg: PolarisCompleteOperationArg,
    now: u64,
    i: int,
    g: int,
)
    requires
        answers(v, arg, i),
        arg.result != 0,
        !(arg.result == -12 && v.blocks[i].retry_count < 2),
        !(arg.result == -14 && v.blocks[i].retry_count < 1),
        v.total_evictions < u64::MAX,
        gpu_at(v, v.blocks[i].home_gpu, g),
    ensures
        ({
            let b = v.blocks[i];
            let (r, w) = completing(v, arg, now);
            let c = w.blocks[i];
            &&& r == Ok::<u64, i32>(b.waiter)
            &&& w.blocks == v.blocks.update(i, c)
            &&& c.state is Evicted && same_block(b, c) && no_rm_memory(c)
            &&& c.pending_decision_id == 0 && c.pending_fault_id == 0 && c.pending_generation == 0
                && c.waiter == 0
            &&& w.total_evictions == v.total_evictions + 1
            &&& w.pending_decisions == v.pending_decisions && w.sessions == v.sessions
            &&& arg.result == -19 ==> w.gpus == v.gpus.update(
                g,
                PolarisGpu { healthy: false, ..v.gpus[g] },
            )
            &&& arg.result != -19 ==> w.gpus == v.gpus
        }),
{
    lemma_answers(v, arg, i);
    law_gpu_is_found(v, v.blocks[i].home_gpu);
    let u = PolarisView {
        blocks: v.blocks.update(
            i,
            PolarisBlock { retry_count: (v.blocks[i].retry_count + 1) as u32, ..v.blocks[i] },
        ),
        ..v
    };
    assert(u.find_gpu(v.blocks[i].home_gpu) == v.find_gpu(v.blocks[i].home_gpu));
    let w = completing(v, arg, now).1;
    assert(w.blocks =~= v.blocks.update(i, w.blocks[i]));
}

/// An answer that no block waits for, or of another generation than the block's, is
/// dropped.
pub proof fn law_late_answers_are_dropped(
    v: PolarisView,
    arg: PolarisCompleteOperationArg,
    now: u64,
)
    requires
        forall|i: int|
            0 <= i < v.blocks.len() && (#[trigger] v.blocks[i]).pending_decision_id
                == arg.decision_id ==> v.blocks[i].pending_generation != 0
                && v.blocks[i].pending_generation != arg.generation,
    ensures
        completing(v, arg, now) == (Ok::<u64, i32>(0), v),
{
    crate::decisions::law_stale_completion_changes_nothing(v, arg, now);
}

// ─── Handing out ────────────────────────────────────────────────────────────

/// A poll hands out the oldest decisions, as many as there are and sixteen at most,
/// and only to an executor that is attached: they leave the queue, and the rest stays in
/// its order.
pub proof fn law_poll_hands_out_the_oldest(v: PolarisView, now: u64)
    ensures
        ({
            let w = polled(v, now);
            let n: int = if v.daemon_attached == 0 {
                0
            } else if v.pending_decisions.len() <= 16 {
                v.pending_decisions.len() as int
            } else {
                16
            };
            &&& crate::decisions::batch_size(v) == n
            &&& w.pending_decisions == v.pending_decisions.skip(n)
            &&& w.blocks.len() == v.blocks.len()
            &&& w.sessions == v.sessions && w.gpus == v.gpus && w.next_decision_id
                == v.next_decision_id
        }),
{
    lemma_touched(v.blocks, v.pending_decisions.take(crate::decisions::batch_size(v)), now, 0);
}

/// Decisions touch blocks and change nothing else about them.
proof fn lemma_touched(
    blocks: Seq<PolarisBlock>,
    ds: Seq<crate::abi::PolarisDecision>,
    now: u64,
    i: int,
)
    ensures
        crate::decisions::touched_by(blocks, ds, now).len() == blocks.len(),
        0 <= i < blocks.len() ==> {
            let c = crate::decisions::touched_by(blocks, ds, now)[i];
            c == blocks[i] || c == (PolarisBlock { last_touch_ns: now, ..blocks[i] })
        },
    decreases ds.len(),
{
    if ds.len() > 0 {
        lemma_touched(blocks, ds.drop_last(), now, i);
        crate::seqs::lemma_first_index(
            crate::decisions::touched_by(blocks, ds.drop_last(), now),
            crate::state::block_is(ds.last().block_id),
        );
    }
}

/// A block that a decision handed out is about counts as used now; one that none is
/// about stays as it is.
pub proof fn law_handed_out_blocks_count_as_used(v: PolarisView, now: u64, i: int)
    requires
        0 <= i < v.blocks.len(),
        forall|j: int| 0 <= j < i ==> (#[trigger] v.blocks[j]).block_id != v.blocks[i].block_id,
    ensures
        ({
            let n = crate::decisions::batch_size(v);
            let c = polled(v, now).blocks[i];
            let named = exists|q: int|
                0 <= q < n && (#[trigger] v.pending_decisions[q]).block_id == v.blocks[i].block_id;
            c == if named {
                PolarisBlock { last_touch_ns: now, ..v.blocks[i] }
            } else {
                v.blocks[i]
            }
        }),
{
    let n = crate::decisions::batch_size(v);
    let ds = v.pending_decisions.take(n);
    lemma_named(v.blocks, ds, now, i);
    if exists|q: int|
        0 <= q < n && (#[trigger] v.pending_decisions[q]).block_id == v.blocks[i].block_id {
        let q = choose|q: int|
            0 <= q < n && (#[trigger] v.pending_decisions[q]).block_id == v.blocks[i].block_id;
        assert(ds[q].block_id == v.blocks[i].block_id);
    }
    if exists|q: int| 0 <= q < ds.len() && (#[trigger] ds[q]).block_id == v.blocks[i].block_id {
        let q = choose|q: int|
            0 <= q < ds.len() && (#[trigger] ds[q]).block_id == v.blocks[i].block_id;
        assert(v.pending_decisions[q].block_id == v.blocks[i].block_id);
    }
}

/// The blocks that decisions name are touched.
proof fn lemma_named(
    blocks: Seq<PolarisBlock>,
    ds: Seq<crate::abi::PolarisDecision>,
    now: u64,
    i: int,
)
    requires
        0 <= i < blocks.len(),
        forall|j: int| 0 <= j < i ==> (#[trigger] blocks[j]).block_id != blocks[i].block_id,
    ensures
        ({
            let c = crate::decisions::touched_by(blocks, ds, now)[i];
            let named = exists|q: int|
                0 <= q < ds.len() && (#[trigger] ds[q]).block_id == blocks[i].block_id;
            c == if named {
                PolarisBlock { last_touch_ns: now, ..blocks[i] }
            } else {
                blocks[i]
            }
        }),
    decreases ds.len(),
{
    if ds.len() > 0 {
        let init = ds.drop_last();
        let before = crate::decisions::touched_by(blocks, init, now);
        lemma_named(blocks, init, now, i);
        lemma_touched(blocks, init, now, i);
        let p = crate::state::block_is(ds.last().block_id);
        crate::seqs::lemma_first_index(before, p);
        assert forall|j: int| 0 <= j < i implies (#[trigger] before[j]).block_id
            != blocks[i].block_id by {
            lemma_touched(blocks, init, now, j);
            assert(blocks[j].block_id != blocks[i].block_id);
        }
        if ds.last().block_id == blocks[i].block_id {
            lemma_first_index_is(before, p, i);
            assert(ds[ds.len() - 1].block_id == blocks[i].block_id);
        } else {
            if exists|q: int| 0 <= q < init.len() && (#[trigger] init[q]).block_id
                == blocks[i].block_id {
                let q = choose|q: int|
                    0 <= q < init.len() && (#[trigger] init[q]).block_id == blocks[i].block_id;
                assert(ds[q].block_id == blocks[i].block_id);
            }
            if exists|q: int| 0 <= q < ds.len() && (#[trigger] ds[q]).block_id
                == blocks[i].block_id {
                let q = choose|q: int|
                    0 <= q < ds.len() && (#[trigger] ds[q]).block_id == blocks[i].block_id;
                assert(q < ds.len() - 1);
                assert(init[q].block_id == blocks[i].block_id);
            }
        }
    }
}

} // verus!
