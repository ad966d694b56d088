//! What the workloads are for: every token is reserved once and touched as it would be
//! read, and the trial of copy on write tells a device that keeps its word from one that
//! does not.

use crate::workload::{
    addresses_needed, decode_loop, decode_op, flat_plan, lemma_part_start, lemma_parts, next_after,
    parts, prefill_op, touch_op, TrialOp, TrialReply, TrialResult, TrialStage, TrialView, WorkOp,
    Workload,
};
use vstd::prelude::*;

verus! {

// ─── Tokens ─────────────────────────────────────────────────────────────────

/// The parts of the output follow the prompt side by side: each starts where the one
/// before it ends, none is empty or too large, and the last ends where the output does.
pub proof fn law_output_follows_the_prompt(prompt: u32, output: u32, per_block: u32, i: int)
    requires
        per_block > 0,
        prompt + output <= u32::MAX,
        0 <= i < parts(output as int, per_block as int),
    ensures
        ({
            let n = parts(output as int, per_block as int);
            let op = decode_op(prompt, output, per_block, i);
            let next = decode_op(prompt, output, per_block, i + 1);
            &&& op is Reserve && op->decode && !op->overwrite
            &&& 0 < op->token_count <= per_block
            &&& i == 0 ==> op->token_start == prompt
            &&& i + 1 < n ==> next->token_start == op->token_start + op->token_count
                && op->token_count == per_block
            &&& i + 1 == n ==> op->token_start + op->token_count == prompt + output
        }),
{
    let n = output as int;
    let s = per_block as int;
    lemma_parts(n, s);
    lemma_part_start(n, s, i);
    assert((i + 1) * s == i * s + s) by (nonlinear_arith);
    assert(0 * s == 0) by (nonlinear_arith);
    if i + 1 < parts(n, s) {
        lemma_part_start(n, s, i + 1);
    } else {
        assert((i + 1) * s == parts(n, s) * s);
    }
}

/// The parts of the prompt lie side by side from its first token to its last.
pub proof fn law_prompt_is_reserved_from_its_start(prompt: u32, per_block: u32, i: int)
    requires
        per_block > 0,
        0 <= i < parts(prompt as int, per_block as int),
    ensures
        ({
            let n = parts(prompt as int, per_block as int);
            let op = prefill_op(prompt, per_block, i);
            let next = prefill_op(prompt, per_block, i + 1);
            &&& op is Reserve && !op->decode && !op->overwrite
            &&& 0 < op->token_count <= per_block
            &&& i == 0 ==> op->token_start == 0
            &&& i + 1 < n ==> next->token_start == op->token_start + op->token_count
            &&& i + 1 == n ==> op->token_start + op->token_count == prompt
        }),
{
    let n = prompt as int;
    let s = per_block as int;
    lemma_parts(n, s);
    lemma_part_start(n, s, i);
    assert((i + 1) * s == i * s + s) by (nonlinear_arith);
    assert(0 * s == 0) by (nonlinear_arith);
    if i + 1 < parts(n, s) {
        lemma_part_start(n, s, i + 1);
    } else {
        assert((i + 1) * s == parts(n, s) * s);
    }
}

/// With each part of the output, all tokens up to its end are read.
pub proof fn law_all_tokens_so_far_are_read(prompt: u32, output: u32, per_block: u32, i: int)
    requires
        per_block > 0,
        prompt + output <= u32::MAX,
        0 <= i < parts(output as int, per_block as int),
    ensures
        ({
            let reserve = decode_op(prompt, output, per_block, i);
            let touch = touch_op(prompt, output, per_block, i);
            &&& touch is Touch && touch->from == 0
            &&& touch->count == reserve->token_start + reserve->token_count
        }),
{
    law_output_follows_the_prompt(prompt, output, per_block, i);
    lemma_part_start(output as int, per_block as int, i);
}

/// The prompt comes first, part by part; then each part of the output, with what is read
/// for it directly behind it; then what is overwritten, if anything is.
pub proof fn law_prompt_then_output(
    prompt: u32,
    output: u32,
    per_block: u32,
    overwrite: Option<(u32, u32)>,
)
    requires
        per_block > 0,
    ensures
        ({
            let p = parts(prompt as int, per_block as int);
            let q = parts(output as int, per_block as int);
            let plan = decode_loop(prompt, output, per_block, overwrite);
            &&& plan.len() == p + 2 * q + (if overwrite is Some {
                1int
            } else {
                0
            })
            &&& forall|i: int|
                0 <= i < p ==> #[trigger] plan[i] == prefill_op(prompt, per_block, i)
            &&& forall|i: int|
                #![trigger decode_op(prompt, output, per_block, i)]
                0 <= i < q ==> plan[p + 2 * i] == decode_op(prompt, output, per_block, i)
                    && plan[p + 2 * i + 1] == touch_op(prompt, output, per_block, i)
            &&& overwrite matches Some((start, count)) ==> plan[p + 2 * q] == (WorkOp::Reserve {
                token_start: start,
                token_count: count,
                overwrite: true,
                decode: false,
            })
        }),
{
    lemma_parts(prompt as int, per_block as int);
    lemma_parts(output as int, per_block as int);
}

/// Blocks side by side are full and lie side by side; then all of their tokens are
/// touched.
pub proof fn law_flat_blocks_lie_side_by_side(num_blocks: u32, per_block: u32, i: int)
    requires
        num_blocks * per_block <= u32::MAX,
        0 <= i < num_blocks,
    ensures
        ({
            let plan = flat_plan(num_blocks, per_block);
            &&& plan.len() == num_blocks + 1
            &&& plan[i] is Reserve && plan[i]->token_count == per_block && !plan[i]->overwrite
                && !plan[i]->decode
            &&& i == 0 ==> plan[i]->token_start == 0
            &&& i + 1 < num_blocks ==> plan[i + 1]->token_start == plan[i]->token_start + per_block
            &&& plan[num_blocks as int] is Touch && plan[num_blocks as int]->from == 0
            &&& i + 1 == num_blocks ==> plan[num_blocks as int]->count == plan[i]->token_start
                + per_block
        }),
{
    let n = num_blocks as int;
    let s = per_block as int;
    assert((i + 1) * s == i * s + s) by (nonlinear_arith);
    assert(0 <= i * s && (i + 1) * s <= n * s) by (nonlinear_arith)
        requires
            0 <= i < n,
            0 <= s,
    ;
    assert(0 * s == 0) by (nonlinear_arith);
}

/// A session has addresses for every token that its workload reserves, and for a prompt
/// and its output as many again for what is overwritten.
pub proof fn law_session_has_room_for_its_tokens(
    num_blocks: u32,
    per_block: u32,
    prompt: u32,
    output: u32,
)
    ensures
        addresses_needed(num_blocks, per_block, None) == (num_blocks * per_block) * 524_288,
        addresses_needed(num_blocks, per_block, Some((prompt, output))) == 2 * ((prompt + output)
            * 524_288),
{
}

/// Every workload goes on where a request worked, and none where a touch failed; only an
/// overwrite may fail without any of them minding.
pub proof fn law_workloads_mind_failures(workload: Workload, op: WorkOp, rc: i32)
    ensures
        rc == 0 ==> next_after(workload, op, rc) is GoOn,
        rc != 0 && op is Touch ==> next_after(workload, op, rc) is Stop,
        rc != 0 && op is Reserve && op->overwrite ==> next_after(workload, op, rc) is GoOn,
        rc != 0 && op is Reserve && !op->overwrite ==> {
            &&& workload is DecodeLoop ==> next_after(workload, op, rc) is Stop
            &&& workload is Flat ==> next_after(workload, op, rc) is EndSession
            &&& workload is BeamSearch ==> next_after(workload, op, rc) is GoOn
            &&& workload is Concurrent ==> next_after(workload, op, rc) is PassOver
        },
{
}

// ─── The trial of copy on write ─────────────────────────────────────────────

/// The trial reserves the blocks of its first session side by side, then branches it,
/// and keeps what it is told of each; a block that cannot be had ends it.
pub proof fn law_trial_sets_up_its_blocks(t: TrialView, i: usize, reply: TrialReply)
    requires
        t.wf(),
        t.stage == TrialStage::Prompt(i),
    ensures
        t.next() matches Some(TrialOp::Reserve { session, token_start, overwrite }) && session
            == t.parent && token_start == i * 16 && !overwrite,
        reply.rc != 0 ==> t.after(reply).stage is GiveUp && t.after(reply).next() == Some(
            TrialOp::Destroy { session: t.parent },
        ) && t.after(reply).result() == TrialResult::SetupFailed(i),
        reply.rc == 0 ==> t.after(reply).block_ids == t.block_ids.push(reply.id),
        reply.rc == 0 && i < 7 ==> t.after(reply).stage == TrialStage::Prompt((i + 1) as usize),
        reply.rc == 0 && i == 7 ==> t.after(reply).stage == TrialStage::Branch(0),
{
}

/// A branch is of the first session and is kept; the last is followed by the cases.
pub proof fn law_trial_branches_its_session(t: TrialView, i: usize, reply: TrialReply)
    requires
        t.wf(),
        t.stage == TrialStage::Branch(i),
    ensures
        t.next() == Some(TrialOp::Branch { parent: t.parent }),
        t.after(reply).children == t.children.push(reply.id),
        i < 2 ==> t.after(reply).stage == TrialStage::Branch((i + 1) as usize),
        i == 2 ==> t.after(reply).stage == TrialStage::Case(0),
{
}

/// A private copy passes only as a block of its own: a case in which shared tokens are
/// overwritten fails where the request fails, where the shared block is handed back, or
/// where the number of copies did not grow by one over the case before.
pub proof fn law_private_copies_are_blocks_of_their_own(
    t: TrialView,
    rc: i32,
    block_id: u64,
    breaks: u64,
)
    ensures
        t.verdict(0, rc, block_id, breaks) ==> rc == 0 && block_id != t.block_ids[0],
        t.verdict(1, rc, block_id, breaks) ==> rc == 0 && block_id != t.block_ids[0] && block_id
            != t.new_a,
        t.verdict(4, rc, block_id, breaks) ==> rc == 0 && block_id != t.block_ids[1],
        t.verdict(5, rc, block_id, breaks) ==> rc == 0 && block_id != t.block_ids[2],
        t.verdict(6, rc, block_id, breaks) ==> rc == 0 && block_id != t.new_a,
        t.verdict(0, rc, block_id, breaks) ==> breaks == 1,
        t.verdict(1, rc, block_id, breaks) ==> t.verdict(
            0,
            rc,
            block_id,
            (breaks - 1) as u64,
        ),
        t.verdict(4, rc, block_id, breaks) ==> breaks == 3,
        t.verdict(5, rc, block_id, breaks) ==> breaks == 4,
        t.verdict(6, rc, block_id, breaks) ==> breaks == 5,
{
}

/// A block that is private already is written in place, without one more copy; and
/// without leave nothing is overwritten: that case passes only where it is refused.
pub proof fn law_private_blocks_are_not_copied_again(
    t: TrialView,
    rc: i32,
    block_id: u64,
    breaks: u64,
)
    ensures
        t.verdict(2, rc, block_id, breaks) <==> rc == 0 && block_id == t.new_a && breaks == 2,
        t.verdict(3, rc, block_id, breaks) <==> rc == -22,
        t.case_op(3) matches TrialOp::Reserve { overwrite, .. } && !overwrite,
        forall|i: int|
            #![trigger t.case_op(i)]
            0 <= i < 7 && i != 3 ==> (t.case_op(i) matches TrialOp::Reserve { overwrite, .. }
                && overwrite),
        t.case_op(2) == t.case_op(0),
{
}

/// Each case is counted once, as passed or as failed, and the trial passes only where
/// none failed.
pub proof fn law_cases_are_counted(t: TrialView, i: usize, reply: TrialReply)
    requires
        t.wf(),
        t.stage == TrialStage::Stats(i),
    ensures
        ({
            let good = t.verdict(i as int, t.rc, t.block_id, reply.cow_breaks);
            let u = t.after(reply);
            &&& good ==> u.passed == t.passed + 1 && u.failed == t.failed
            &&& !good ==> u.failed == t.failed + 1 && u.passed == t.passed
            &&& u.failed > 0 && u.gave_up_at is None ==> u.result() is Failed
        }),
{
}

/// Everything that the trial made goes at its end, the youngest first.
pub proof fn law_trial_cleans_up(t: TrialView, reply: TrialReply)
    requires
        t.wf(),
    ensures
        t.stage is DestroyGrandchild ==> t.next() == Some(
            TrialOp::Destroy { session: t.grandchild },
        ) && t.after(reply).stage == TrialStage::DestroyChild(0),
        t.stage matches TrialStage::DestroyChild(i) ==> t.next() == Some(
            TrialOp::Destroy { session: t.children[i as int] },
        ) && (i < 2 ==> t.after(reply).stage == TrialStage::DestroyChild((i + 1) as usize)) && (i
            == 2 ==> t.after(reply).stage is DestroyParent),
        t.stage is DestroyParent ==> t.next() == Some(TrialOp::Destroy { session: t.parent })
            && t.after(reply).stage is Done,
        t.stage is Done ==> t.next() is None,
{
}

} // verus!
