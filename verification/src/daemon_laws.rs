//! What the executor as a program is for: what it tells the device is what it did, its
//! settings mean what they say, and its loop leaves no decision undone.

use crate::abi::PolarisDecision;
use crate::completion_laws::answers;
use crate::daemon::{
    budget_of, completion_of, failure_of, gpu_record, job_copy, job_of, pool_of, range_record,
    reply_of, reserve_gib, workers_of, DecisionLoop, LoopAction, LoopEvent, LoopState, OffloadDone,
};
use crate::decisions::{awaits, completing};
use crate::device::{registering_gpu, registering_range, DeviceView};
use crate::executor::ExecutionResult;
use crate::lifecycle::{looks_clean, notices, KernelStats, Notice};
use crate::offload::{copy_error, Run, Step};
use crate::parse::{as_chars, is_digit, law_decimal_reads_back, lemma_decimal_is_digits, trimmed};
use crate::places::{gpu_at, law_gpu_is_found, no_gpu};
use crate::seqs::lemma_first_index_is;
use crate::state::PolarisView;
use crate::text::decimal;
use vstd::prelude::*;

verus! {

// ─── What the device is told ────────────────────────────────────────────────

/// A block that was carried out is known to the device with what the executor has for
/// it: the handle or the memory of the resource manager where it was brought, the
/// buffer where it went to the host.
pub proof fn law_device_learns_what_was_done(
    v: PolarisView,
    dec: PolarisDecision,
    exec: ExecutionResult,
    now: u64,
    i: int,
)
    requires
        answers(v, completion_of(dec.decision_id, dec.generation, exec), i),
        exec.result == 0,
        exec.rm_h_memory == 0 && exec.rm_h_client == 0 && exec.rm_backing_length == 0
            && exec.rm_control_fd == 0 || (exec.rm_h_memory != 0 && exec.rm_h_client != 0
            && exec.rm_backing_length >= v.blocks[i].size_bytes && exec.rm_backing_length > 0),
    ensures
        ({
            let b = v.blocks[i];
            let (r, w) = completing(
                v,
                completion_of(dec.decision_id, dec.generation, exec),
                now,
            );
            let c = w.blocks[i];
            &&& r is Ok
            &&& b.state is AllocPending || b.state is ReloadPending || b.state is CowPending ==> {
                &&& c.state is Resident && c.gpu_phys_handle == exec.output_handle
                &&& c.rm_h_memory == exec.rm_h_memory && c.rm_h_client == exec.rm_h_client
                &&& c.rm_control_fd == exec.rm_control_fd && c.rm_backing_length
                    == exec.rm_backing_length
            }
            &&& b.state is OffloadPending ==> c.state is CpuOffloaded && c.cpu_buf_addr
                == exec.output_cpu_addr
        }),
{
    let arg = completion_of(dec.decision_id, dec.generation, exec);
    lemma_first_index_is(v.blocks, awaits(arg.decision_id), i);
}

/// A decision that failed is answered with its failure, under its own number and
/// generation.
pub proof fn law_failures_are_told(decision_id: u64, generation: u64, exec: ExecutionResult)
    ensures
        completion_of(decision_id, generation, exec).result == exec.result,
        completion_of(decision_id, generation, exec).decision_id == decision_id,
        completion_of(decision_id, generation, exec).generation == generation,
{
}

/// A GPU that the executor announces is known with the capacities that it was given.
pub proof fn law_announced_gpu_has_its_capacities(
    v: PolarisView,
    d: DeviceView,
    gpu_id: u32,
    total: u64,
    budget: u64,
    pool: u64,
)
    requires
        no_gpu(v, gpu_id),
        total != 0,
        budget != 0,
        v.daemon_attached < u32::MAX,
    ensures
        ({
            let (r, w, _) = registering_gpu(v, d, gpu_record(gpu_id, total, budget, pool));
            let g = w.gpus.last();
            &&& r is Ok && w.gpus.len() == v.gpus.len() + 1
            &&& g.gpu_id == gpu_id && g.total_bytes == total && g.budget_bytes == budget
                && g.cpu_pool_total_bytes == pool
        }),
{
    law_gpu_is_found(v, gpu_id);
}

/// A range that the executor hands over is known where it lies and how long it is.
pub proof fn law_announced_range_lies_where_it_is_said_to(
    v: PolarisView,
    d: DeviceView,
    gpu_id: u32,
    base: u64,
    length: u64,
    block_size: u64,
    g: int,
)
    requires
        gpu_at(v, gpu_id, g),
        d.registered_gpu,
        length != 0,
        block_size != 0,
        v.next_range_id < u64::MAX,
    ensures
        ({
            let (r, w, _) = registering_range(
                v,
                d,
                range_record(gpu_id, base, length, block_size),
            );
            &&& r is Ok
            &&& w.gpus[g].va_range_base == base && w.gpus[g].va_range_length == length
                && w.gpus[g].va_block_size == block_size && w.gpus[g].va_range_registered
        }),
{
    law_gpu_is_found(v, gpu_id);
    let w = PolarisView { next_range_id: (v.next_range_id + 1) as u64, ..v };
    assert(w.find_gpu(gpu_id) == v.find_gpu(gpu_id));
}

// ─── Copies in the background ───────────────────────────────────────────────

/// A job is for the block and the buffer of the offload that it came from, under the
/// number of its decision; its copy takes all of the block to that buffer.
pub proof fn law_job_copies_its_block(dec: PolarisDecision, begun: Step)
    ensures
        job_of(dec, begun) matches Some(job) ==> {
            &&& job.decision_id == dec.decision_id && job.generation == dec.generation
            &&& begun matches Step::Ask { run: Run::RmOffloadCopy { block_id, size, cpu_addr }, .. }
                && job.block_id == block_id && job.size == size && job.cpu_addr == cpu_addr
            &&& job_copy(job).block_id == job.block_id && job_copy(job).length == job.size
                && job_copy(job).user_cpu_addr == job.cpu_addr && job_copy(job).direction == 0
                && job_copy(job).offset == 0
        },
        begun is Finish ==> job_of(dec, begun) is None,
{
}

/// What a worker reports counts as the copy's answer: it worked only where there was no
/// error and all of the block was copied.
pub proof fn law_report_is_the_copys_answer(done: OffloadDone)
    ensures
        copy_error(reply_of(done), done.job.size) is None <==> done.copy_result == 0
            && done.bytes_copied == done.job.size,
        done.copy_result != 0 ==> copy_error(reply_of(done), done.job.size) == Some(
            done.copy_result,
        ),
{
}

// ─── Settings ───────────────────────────────────────────────────────────────

/// Digits have no white space around them.
proof fn lemma_digits_are_trimmed(n: u64)
    ensures
        trimmed(as_chars(decimal(n as nat))) == as_chars(decimal(n as nat)),
{
    lemma_decimal_is_digits(n as nat);
    let s = as_chars(decimal(n as nat));
    assert(is_digit(s[0]));
    assert(is_digit(s[s.len() - 1]));
}

/// A number that is set is the one that is used.
pub proof fn law_settings_that_are_numbers_are_used(s: &str, n: u64, total: u64)
    requires
        s@ == as_chars(decimal(n as nat)),
    ensures
        budget_of(Some(s), total) == n,
        pool_of(Some(s)) == n,
        reserve_gib(Some(s)) == n,
        n > 0 ==> workers_of(Some(s)) == n,
{
    law_decimal_reads_back(n);
    lemma_digits_are_trimmed(n);
}

/// Without a setting, blocks may take three quarters of the memory, rounded down, and
/// there are workers.
pub proof fn law_usual_settings(total: u64)
    requires
        total * 3 <= u64::MAX,
    ensures
        budget_of(None, total) * 4 <= total * 3 < budget_of(None, total) * 4 + 4,
        budget_of(None, total) <= total,
        workers_of(None) > 0,
        pool_of(None) > 0,
        reserve_gib(None) > 0,
        failure_of(None) == 0,
{
}

/// There is always a worker.
pub proof fn law_there_is_a_worker(value: Option<&str>)
    ensures
        workers_of(value) >= 1,
{
}

// ─── The loop ───────────────────────────────────────────────────────────────

/// A decision of the batch that the loop comes to is done next: one to move a block to
/// the host is offered to the workers, if there are any and no failure is tried out,
/// and every other is carried out. Behind the last, decisions are asked for.
pub proof fn law_every_decision_is_taken_up(l: DecisionLoop, at: int, full: bool)
    requires
        0 <= at <= l.batch.count,
        l.batch.count <= 16,
    ensures
        ({
            let s = l.arriving(at, full);
            let d = l.batch.decisions[at];
            let action = (DecisionLoop { state: s, ..l }).next_action();
            let offered = at < l.batch.count && d.op == 4 && l.test_err == 0 && l.background;
            &&& at == l.batch.count ==> action is Poll || action is Drain
            &&& offered && !full ==> action == LoopAction::Offer(d)
            &&& offered && full ==> action is WaitForCompletion && s == (LoopState::Waiting {
                at: at as usize,
            })
            &&& at < l.batch.count && !offered ==> action == LoopAction::Execute(d)
        }),
{
}

/// A decision that no worker took is carried out at once; one that a worker took is
/// done with, as is one that was carried out.
pub proof fn law_refused_offer_is_carried_out(l: DecisionLoop, at: usize, taken: bool, full: bool)
    requires
        l.wf(),
        at < l.batch.count,
        l.background,
    ensures
        ({
            let offering = DecisionLoop { state: LoopState::Offering { at }, ..l };
            let executing = DecisionLoop { state: LoopState::Executing { at }, ..l };
            let waiting = DecisionLoop { state: LoopState::Waiting { at }, ..l };
            let next = offering.after(LoopEvent::Offered(taken), full);
            &&& !taken ==> next == executing
            &&& taken ==> next == executing.after(LoopEvent::Offered(taken), full)
            &&& waiting.after(LoopEvent::Offered(taken), full) == offering
        }),
{
}

/// Finished copies are taken in before decisions are asked for, where copies are made
/// in the background; a poll that fails is tried again, unless the device is gone.
pub proof fn law_loop_goes_on_after_a_failed_poll(l: DecisionLoop, errno: i32, full: bool)
    requires
        l.state is Polling,
    ensures
        ({
            let next = l.after(LoopEvent::PollFailed(errno), full);
            &&& errno == 19 && l.background ==> next.next_action() is Shutdown
            &&& errno == 19 && !l.background ==> next.next_action() is Exit
            &&& errno != 19 && l.background ==> next.next_action() is Drain
            &&& errno != 19 && !l.background ==> next.next_action() is Poll
        }),
{
}

// ─── Starting up ────────────────────────────────────────────────────────────

/// A start is clean exactly where an executor is attached and nothing is left over; and
/// whatever is left over is told of.
pub proof fn law_leftovers_are_told_of(stats: KernelStats)
    ensures
        looks_clean(stats) <==> stats.daemon_attached > 0 && stats.sessions == 0
            && stats.pending_decisions == 0 && stats.blocks_offloaded == 0 && stats.gpus_unhealthy
            == 0,
        stats.daemon_attached == 0 <==> notices(stats)[0] is NotAttached,
        stats.daemon_attached > 0 ==> notices(stats)[0] == Notice::Attached(stats.daemon_attached),
        stats.sessions > 0 ==> notices(stats).contains(Notice::SessionsLeft(stats.sessions)),
        stats.pending_decisions > 0 ==> notices(stats).contains(
            Notice::DecisionsLeft(stats.pending_decisions),
        ),
        stats.blocks_evicted > 0 ==> notices(stats).contains(Notice::Evicted(stats.blocks_evicted)),
        stats.blocks_offloaded > 0 ==> notices(stats).contains(
            Notice::Offloaded(stats.blocks_offloaded),
        ),
        stats.gpus_unhealthy > 0 ==> notices(stats).contains(
            Notice::Unhealthy(stats.gpus_unhealthy),
        ),
        stats.sessions == 0 && stats.pending_decisions == 0 && stats.blocks_evicted == 0
            && stats.blocks_offloaded == 0 && stats.gpus_unhealthy == 0 ==> notices(stats).len()
            == 3,
        notices(stats)[notices(stats).len() - 1] == Notice::Memory(
            stats.gpu_used_mib,
            stats.gpu_total_mib,
        ),
        notices(stats)[notices(stats).len() - 2] == Notice::Blocks(
            stats.blocks,
            stats.blocks_resident,
            stats.blocks_offloaded,
            stats.blocks_evicted,
        ),
{
    let n = notices(stats);
    let a: int = if stats.sessions > 0 {
        1
    } else {
        0
    };
    let b: int = a + if stats.pending_decisions > 0 {
        1int
    } else {
        0
    };
    let c: int = b + if stats.blocks_evicted > 0 {
        1int
    } else {
        0
    };
    let d: int = c + if stats.blocks_offloaded > 0 {
        1int
    } else {
        0
    };
    if stats.sessions > 0 {
        assert(n[1] == Notice::SessionsLeft(stats.sessions));
    }
    if stats.pending_decisions > 0 {
        assert(n[1 + a] == Notice::DecisionsLeft(stats.pending_decisions));
    }
    if stats.blocks_evicted > 0 {
        assert(n[1 + b] == Notice::Evicted(stats.blocks_evicted));
    }
    if stats.blocks_offloaded > 0 {
        assert(n[1 + c] == Notice::Offloaded(stats.blocks_offloaded));
    }
    if stats.gpus_unhealthy > 0 {
        assert(n[1 + d] == Notice::Unhealthy(stats.gpus_unhealthy));
    }
}

} // verus!
