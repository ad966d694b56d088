//! Synthetic workloads: what is asked of the device, and what of the answers.

use crate::abi::POLARIS_DEFAULT_BYTES_PER_TOKEN;
use crate::errno::EINVAL;
use crate::text::{decimal, push_decimal, push_str};
use vstd::prelude::*;
use vstd::string::*;

verus! {

// ─── Plans ──────────────────────────────────────────────────────────────────

/// One thing that a workload asks of the device.
#[derive(Clone, Copy, PartialEq, Eq, Structural, Debug)]
pub enum WorkOp {
    /// Reserve a block for tokens.
    Reserve { token_start: u32, token_count: u32, overwrite: bool, decode: bool },
    /// Touch tokens.
    Touch { from: u64, count: u64 },
}

/// How many parts of a size something takes, the last one filled or not.
pub open spec fn parts(n: int, size: int) -> int {
    (n + size - 1) / size
}

/// How many parts of a size something takes, the last one filled or not.
pub fn div_ceil(n: u32, size: u32) -> (r: u32)
    requires
        size > 0,
    ensures
        r == parts(n as int, size as int),
        r <= n,
{
    proof {
        lemma_parts(n as int, size as int);
    }
    let q = n / size;
    if n % size > 0 {
        proof {
            assert(parts(n as int, size as int) == q + 1) by {
                vstd::arithmetic::div_mod::lemma_fundamental_div_mod(n as int, size as int);
                assert((q + 1) * size == size * q + size) by (nonlinear_arith);
                vstd::arithmetic::div_mod::lemma_fundamental_div_mod_converse(
                    n + size - 1,
                    size as int,
                    q + 1,
                    n as int % size as int - 1,
                );
            }
        }
        q + 1
    } else {
        proof {
            assert(parts(n as int, size as int) == q) by {
                vstd::arithmetic::div_mod::lemma_fundamental_div_mod(n as int, size as int);
                vstd::arithmetic::div_mod::lemma_fundamental_div_mod_converse(
                    n + size - 1,
                    size as int,
                    q as int,
                    size - 1,
                );
            }
        }
        q
    }
}

/// The parts cover the whole, and all but the last one are filled.
pub proof fn lemma_parts(n: int, size: int)
    requires
        0 <= n,
        0 < size,
    ensures
        0 <= parts(n, size) <= n,
        parts(n, size) * size >= n,
        n > 0 ==> (parts(n, size) - 1) * size < n,
{
    let m = n + size - 1;
    let p = parts(n, size);
    vstd::arithmetic::div_mod::lemma_fundamental_div_mod(m, size);
    vstd::arithmetic::div_mod::lemma_mod_bound(m, size);
    let r = m % size;
    assert(p * size == m - r) by (nonlinear_arith)
        requires
            m == size * p + r,
    ;
    assert((p - 1) * size == p * size - size) by (nonlinear_arith);
    assert(0 <= p <= n) by (nonlinear_arith)
        requires
            p * size == n + size - 1 - r,
            0 <= r < size,
            0 < size,
            0 <= n,
    ;
}

/// A part that is not the last one starts before the end.
pub proof fn lemma_part_start(n: int, size: int, i: int)
    requires
        0 <= n,
        0 < size,
        0 <= i < parts(n, size),
    ensures
        0 <= i * size < n,
{
    lemma_parts(n, size);
    assert(0 <= i * size <= (parts(n, size) - 1) * size) by (nonlinear_arith)
        requires
            0 <= i <= parts(n, size) - 1,
            0 < size,
    ;
}

/// How many tokens a part holds.
pub open spec fn part_size(n: int, size: int, i: int) -> int {
    if n - i * size < size {
        n - i * size
    } else {
        size
    }
}

/// The reservation for a part of the prompt.
pub open spec fn prefill_op(prompt: u32, per_block: u32, i: int) -> WorkOp {
    WorkOp::Reserve {
        token_start: (i * per_block) as u32,
        token_count: part_size(prompt as int, per_block as int, i) as u32,
        overwrite: false,
        decode: false,
    }
}

/// The reservation for a part of the output, behind the prompt.
pub open spec fn decode_op(prompt: u32, output: u32, per_block: u32, i: int) -> WorkOp {
    WorkOp::Reserve {
        token_start: (prompt + i * per_block) as u32,
        token_count: part_size(output as int, per_block as int, i) as u32,
        overwrite: false,
        decode: true,
    }
}

/// Touching all tokens up to a part of the output.
pub open spec fn touch_op(prompt: u32, output: u32, per_block: u32, i: int) -> WorkOp {
    WorkOp::Touch {
        from: 0,
        count: (prompt + i * per_block + part_size(output as int, per_block as int, i))
            as u64,
    }
}

/// A prompt and its output: the prompt is reserved part by part; then each part
/// of the output is reserved and all tokens so far are touched; at the end a
/// block may be overwritten.
pub open spec fn decode_loop(
    prompt: u32,
    output: u32,
    per_block: u32,
    overwrite: Option<(u32, u32)>,
) -> Seq<WorkOp> {
    Seq::new(
        parts(prompt as int, per_block as int) as nat,
        |i: int| prefill_op(prompt, per_block, i),
    ) + Seq::new(
        (2 * parts(output as int, per_block as int)) as nat,
        |k: int|
            if k % 2 == 0 {
                decode_op(prompt, output, per_block, k / 2)
            } else {
                touch_op(prompt, output, per_block, k / 2)
            },
    ) + match overwrite {
        Some((start, count)) => seq![
            WorkOp::Reserve {
                token_start: start,
                token_count: count,
                overwrite: true,
                decode: false,
            },
        ],
        None => seq![],
    }
}

/// The tokens of a part.
fn tokens_of_part(n: u32, size: u32, i: u32) -> (r: (u32, u32))
    requires
        size > 0,
        i < parts(n as int, size as int),
    ensures
        r.0 == i * size,
        r.1 == part_size(n as int, size as int, i as int),
        r.0 + r.1 <= n,
        r.1 > 0,
{
    proof {
        lemma_part_start(n as int, size as int, i as int);
    }
    let start = i * size;
    let rest = n - start;
    (
        start,
        if rest < size {
            rest
        } else {
            size
        },
    )
}

/// What is asked for a part of the output: its block, then a touch of all tokens
/// so far.
pub fn decode_step(prompt: u32, output: u32, per_block: u32, i: u32) -> (r: (WorkOp, WorkOp))
    requires
        per_block > 0,
        prompt + output <= u32::MAX,
        i < parts(output as int, per_block as int),
    ensures
        r == (
            decode_op(prompt, output, per_block, i as int),
            touch_op(prompt, output, per_block, i as int),
        ),
{
    let (start, count) = tokens_of_part(output, per_block, i);
    (
        WorkOp::Reserve {
            token_start: prompt + start,
            token_count: count,
            overwrite: false,
            decode: true,
        },
        WorkOp::Touch { from: 0, count: (prompt + start + count) as u64 },
    )
}

/// One session's turn in a round.
#[derive(Clone, Copy, PartialEq, Eq, Structural, Debug)]
pub struct Turn {
    /// The part of the output.
    pub step: u32,
    /// Whose turn it is.
    pub session: usize,
    pub reserve: WorkOp,
    pub touch: WorkOp,
}

/// A session's turn.
pub open spec fn turn(prompt: u32, output: u32, per_block: u32, step: int, session: int) -> Turn {
    Turn {
        step: step as u32,
        session: session as usize,
        reserve: decode_op(prompt, output, per_block, step),
        touch: touch_op(prompt, output, per_block, step),
    }
}

/// The turns of the first rounds: in each round every session decodes the same
/// part of its output, one session after the other.
pub open spec fn rounds(
    sessions: nat,
    prompt: u32,
    output: u32,
    per_block: u32,
    steps: int,
) -> Seq<Turn>
    decreases steps,
{
    if steps <= 0 {
        Seq::empty()
    } else {
        rounds(sessions, prompt, output, per_block, steps - 1) + Seq::new(
            sessions,
            |k: int| turn(prompt, output, per_block, steps - 1, k),
        )
    }
}

/// The turns in which sessions decode side by side.
pub fn decode_rounds(sessions: usize, prompt: u32, output: u32, per_block: u32) -> (r: Vec<Turn>)
    requires
        per_block > 0,
        prompt + output <= u32::MAX,
    ensures
        r@ == rounds(
            sessions as nat,
            prompt,
            output,
            per_block,
            parts(output as int, per_block as int),
        ),
{
    let steps = div_ceil(output, per_block);
    let mut out: Vec<Turn> = Vec::new();
    let mut step: u32 = 0;
    while step < steps
        invariant
            per_block > 0,
            prompt + output <= u32::MAX,
            steps == parts(output as int, per_block as int),
            step <= steps,
            out@ == rounds(sessions as nat, prompt, output, per_block, step as int),
        decreases steps - step,
    {
        let (reserve, touch) = decode_step(prompt, output, per_block, step);
        let ghost before = out@;
        let ghost round = Seq::new(
            sessions as nat,
            |k: int| turn(prompt, output, per_block, step as int, k),
        );
        let mut session: usize = 0;
        assert(out@ =~= before + round.take(0));
        while session < sessions
            invariant
                session <= sessions,
                reserve == decode_op(prompt, output, per_block, step as int),
                touch == touch_op(prompt, output, per_block, step as int),
                round == Seq::new(
                    sessions as nat,
                    |k: int| turn(prompt, output, per_block, step as int, k),
                ),
                out@ == before + round.take(session as int),
            decreases sessions - session,
        {
            out.push(Turn { step, session, reserve, touch });
            session += 1;
            assert(out@ =~= before + round.take(session as int));
        }
        assert(round.take(session as int) =~= round);
        step += 1;
    }
    out
}

/// Every session has its turn in every round, and the rounds follow one another.
pub proof fn law_rounds_take_turns(
    sessions: nat,
    prompt: u32,
    output: u32,
    per_block: u32,
    steps: int,
    step: int,
    session: int,
)
    requires
        0 <= step < steps,
        0 <= session < sessions,
    ensures
        rounds(sessions, prompt, output, per_block, steps).len() == steps * sessions,
        0 <= step * sessions + session < steps * sessions,
        rounds(sessions, prompt, output, per_block, steps)[step * sessions + session] == turn(
            prompt,
            output,
            per_block,
            step,
            session,
        ),
    decreases steps,
{
    lemma_rounds_length(sessions, prompt, output, per_block, steps);
    lemma_rounds_length(sessions, prompt, output, per_block, steps - 1);
    assert((steps - 1) * sessions + sessions == steps * sessions) by (nonlinear_arith);
    if step < steps - 1 {
        law_rounds_take_turns(sessions, prompt, output, per_block, steps - 1, step, session);
    }
}

/// Rounds are as long as there are sessions.
proof fn lemma_rounds_length(
    sessions: nat,
    prompt: u32,
    output: u32,
    per_block: u32,
    steps: int,
)
    requires
        0 <= steps,
    ensures
        rounds(sessions, prompt, output, per_block, steps).len() == steps * sessions,
    decreases steps,
{
    if steps > 0 {
        lemma_rounds_length(sessions, prompt, output, per_block, steps - 1);
        assert((steps - 1) * sessions + sessions == steps * sessions) by (nonlinear_arith);
    } else {
        assert(steps * sessions == 0) by (nonlinear_arith)
            requires
                steps == 0,
        ;
    }
}

/// What a prompt and its output ask of the device.
pub fn run_decode_loop(
    prompt: u32,
    output: u32,
    per_block: u32,
    overwrite: Option<(u32, u32)>,
) -> (r: Vec<WorkOp>)
    requires
        per_block > 0,
        prompt + output <= u32::MAX,
    ensures
        r@ == decode_loop(prompt, output, per_block, overwrite),
{
    let mut out: Vec<WorkOp> = Vec::new();
    let prompt_blocks = div_ceil(prompt, per_block);
    let output_blocks = div_ceil(output, per_block);
    let ghost prefill = Seq::new(
        prompt_blocks as nat,
        |i: int| prefill_op(prompt, per_block, i),
    );
    let mut i: u32 = 0;
    while i < prompt_blocks
        invariant
            per_block > 0,
            prompt_blocks == parts(prompt as int, per_block as int),
            i <= prompt_blocks,
            prefill == Seq::new(
                prompt_blocks as nat,
                |i: int| prefill_op(prompt, per_block, i),
            ),
            out@ == prefill.take(i as int),
        decreases prompt_blocks - i,
    {
        let (start, count) = tokens_of_part(prompt, per_block, i);
        out.push(
            WorkOp::Reserve {
                token_start: start,
                token_count: count,
                overwrite: false,
                decode: false,
            },
        );
        i += 1;
        assert(out@ =~= prefill.take(i as int));
    }
    assert(prefill.take(i as int) =~= prefill);
    let ghost decode = Seq::new(
        (2 * output_blocks) as nat,
        |k: int|
            if k % 2 == 0 {
                decode_op(prompt, output, per_block, k / 2)
            } else {
                touch_op(prompt, output, per_block, k / 2)
            },
    );
    let mut j: u32 = 0;
    assert(out@ =~= prefill + decode.take(0));
    while j < output_blocks
        invariant
            per_block > 0,
            prompt + output <= u32::MAX,
            output_blocks == parts(output as int, per_block as int),
            j <= output_blocks,
            decode == Seq::new(
                (2 * output_blocks) as nat,
                |k: int|
                    if k % 2 == 0 {
                        decode_op(prompt, output, per_block, k / 2)
                    } else {
                        touch_op(prompt, output, per_block, k / 2)
                    },
            ),
            out@ == prefill + decode.take(2 * j),
        decreases output_blocks - j,
    {
        let (reserve, touch) = decode_step(prompt, output, per_block, j);
        out.push(reserve);
        out.push(touch);
        proof {
            assert(decode[2 * j] == reserve);
            assert(decode[2 * j + 1] == touch);
            assert(out@ =~= prefill + decode.take(2 * (j + 1)));
        }
        j += 1;
    }
    assert(decode.take(2 * j) =~= decode);
    if let Some((start, count)) = overwrite {
        out.push(
            WorkOp::Reserve {
                token_start: start,
                token_count: count,
                overwrite: true,
                decode: false,
            },
        );
    }
    assert(out@ =~= decode_loop(prompt, output, per_block, overwrite));
    out
}

/// Blocks side by side, then a touch of all of them.
pub open spec fn flat_plan(num_blocks: u32, per_block: u32) -> Seq<WorkOp> {
    Seq::new(
        num_blocks as nat,
        |i: int|
            WorkOp::Reserve {
                token_start: (i * per_block) as u32,
                token_count: per_block,
                overwrite: false,
                decode: false,
            },
    ).push(WorkOp::Touch { from: 0, count: (num_blocks * per_block) as u64 })
}

/// What blocks side by side ask of the device.
pub fn run_flat(num_blocks: u32, per_block: u32) -> (r: Vec<WorkOp>)
    requires
        num_blocks * per_block <= u32::MAX,
    ensures
        r@ == flat_plan(num_blocks, per_block),
{
    let mut out: Vec<WorkOp> = Vec::new();
    let ghost plan = flat_plan(num_blocks, per_block);
    let mut i: u32 = 0;
    while i < num_blocks
        invariant
            i <= num_blocks,
            num_blocks * per_block <= u32::MAX,
            plan == flat_plan(num_blocks, per_block),
            out@ == plan.take(i as int),
        decreases num_blocks - i,
    {
        assert(0 <= i * per_block <= num_blocks * per_block) by (nonlinear_arith)
            requires
                i <= num_blocks,
                per_block >= 0,
        ;
        out.push(
            WorkOp::Reserve {
                token_start: i * per_block,
                token_count: per_block,
                overwrite: false,
                decode: false,
            },
        );
        i += 1;
        assert(out@ =~= plan.take(i as int));
    }
    out.push(WorkOp::Touch { from: 0, count: (num_blocks * per_block) as u64 });
    assert(out@ =~= plan);
    out
}

// ─── Answers ────────────────────────────────────────────────────────────────

/// Whether a prompt and its output go on after the answer to a request: they do
/// where it worked, and an overwrite may fail.
pub open spec fn may_go_on(op: WorkOp, rc: i32) -> bool {
    rc == 0 || (op matches WorkOp::Reserve { overwrite, .. } && overwrite)
}

/// Whether a prompt and its output go on after the answer to a request.
pub fn goes_on(op: WorkOp, rc: i32) -> (r: bool)
    ensures
        r == may_go_on(op, rc),
{
    if rc == 0 {
        return true;
    }
    match op {
        WorkOp::Reserve { overwrite, .. } => overwrite,
        WorkOp::Touch { .. } => false,
    }
}

/// The workloads.
#[derive(Clone, Copy, PartialEq, Eq, Structural, Debug)]
pub enum Workload {
    /// A prompt and its output.
    DecodeLoop,
    /// Blocks side by side.
    Flat,
    /// Branches of one session that decode side by side.
    BeamSearch,
    /// Sessions that decode side by side.
    Concurrent,
}

/// What a workload does after an answer.
#[derive(Clone, Copy, PartialEq, Eq, Structural, Debug)]
pub enum Next {
    /// It goes on.
    GoOn,
    /// It goes on without the touch that follows the reservation.
    PassOver,
    /// It stops, and leaves its sessions as they are.
    Stop,
    /// It ends its session and stops.
    EndSession,
}

/// What a workload does after the answer to a request. All of them go on where it
/// worked and stop where a touch failed. Where a reservation failed, blocks side by
/// side end their session, branches go on, and sessions side by side leave out the
/// touch.
pub open spec fn next_after(workload: Workload, op: WorkOp, rc: i32) -> Next {
    if may_go_on(op, rc) {
        Next::GoOn
    } else if op is Touch {
        Next::Stop
    } else {
        match workload {
            Workload::DecodeLoop => Next::Stop,
            Workload::Flat => Next::EndSession,
            Workload::BeamSearch => Next::GoOn,
            Workload::Concurrent => Next::PassOver,
        }
    }
}

/// What a workload does after the answer to a request.
pub fn after_answer(workload: Workload, op: WorkOp, rc: i32) -> (r: Next)
    ensures
        r == next_after(workload, op, rc),
{
    if goes_on(op, rc) {
        return Next::GoOn;
    }
    match op {
        WorkOp::Touch { .. } => Next::Stop,
        WorkOp::Reserve { .. } => match workload {
            Workload::DecodeLoop => Next::Stop,
            Workload::Flat => Next::EndSession,
            Workload::BeamSearch => Next::GoOn,
            Workload::Concurrent => Next::PassOver,
        },
    }
}

/// How many addresses a session needs for a prompt and its output, twice over,
/// or for blocks side by side.
pub open spec fn addresses_needed(
    num_blocks: u32,
    per_block: u32,
    decode: Option<(u32, u32)>,
) -> int {
    match decode {
        Some((prompt, output)) => (prompt + output) * POLARIS_DEFAULT_BYTES_PER_TOKEN * 2,
        None => num_blocks * per_block * POLARIS_DEFAULT_BYTES_PER_TOKEN,
    }
}

/// How many addresses a session needs.
pub fn session_addresses(num_blocks: u32, per_block: u32, decode: Option<(u32, u32)>) -> (r: u64)
    requires
        decode matches Some((prompt, output)) ==> prompt + output <= u32::MAX,
        addresses_needed(num_blocks, per_block, decode) <= u64::MAX,
    ensures
        r == addresses_needed(num_blocks, per_block, decode),
{
    match decode {
        Some((prompt, output)) => ((prompt + output) as u64) * POLARIS_DEFAULT_BYTES_PER_TOKEN * 2,
        None => {
            assert(0 <= num_blocks * per_block <= 0xffff_ffff * 0xffff_ffff) by (nonlinear_arith)
                requires
                    0 <= num_blocks <= 0xffff_ffff,
                    0 <= per_block <= 0xffff_ffff,
            ;
            (num_blocks as u64) * (per_block as u64) * POLARIS_DEFAULT_BYTES_PER_TOKEN
        },
    }
}

/// The reservations of a prompt and its output lie side by side and cover all of
/// its tokens: each starts where the one before it ends, the first at zero and
/// the last where the tokens end.
pub proof fn law_reservations_cover_the_tokens(prompt: u32, per_block: u32, i: int)
    requires
        per_block > 0,
        0 <= i < parts(prompt as int, per_block as int),
    ensures
        prefill_op(prompt, per_block, 0)->token_start == 0,
        ({
            let op = prefill_op(prompt, per_block, i);
            let end = i * per_block + part_size(prompt as int, per_block as int, i);
            &&& op == (WorkOp::Reserve {
                token_start: (i * per_block) as u32,
                token_count: (end - i * per_block) as u32,
                overwrite: false,
                decode: false,
            })
            &&& i + 1 < parts(prompt as int, per_block as int) ==> end == (i + 1) * per_block
            &&& i + 1 == parts(prompt as int, per_block as int) ==> end == prompt
        }),
{
    let n = prompt as int;
    let s = per_block as int;
    lemma_parts(n, s);
    lemma_part_start(n, s, i);
    assert((i + 1) * s == i * s + s) by (nonlinear_arith);
    if i + 1 < parts(n, s) {
        lemma_part_start(n, s, i + 1);
    } else {
        assert((i + 1) * s == parts(n, s) * s);
    }
}

// ─── The trial of copy on write ─────────────────────────────────────────────

/// How many blocks the trial starts with.
pub const TRIAL_BLOCKS: usize = 8;

/// How many branches it makes.
pub const TRIAL_CHILDREN: usize = 3;

/// How many cases it has.
pub const TRIAL_CASES: usize = 7;

/// How many tokens a block of it holds.
pub const TRIAL_TOKENS: u32 = 16;

/// Where the trial stands.
#[derive(Clone, Copy, PartialEq, Eq, Structural, Debug)]
pub enum TrialStage {
    Create,
    Prompt(usize),
    Branch(usize),
    /// A branch of the first branch, ahead of the sixth case.
    BranchAgain,
    Case(usize),
    Stats(usize),
    DestroyGrandchild,
    DestroyChild(usize),
    DestroyParent,
    /// The setup failed at a block; the session is closed.
    GiveUp(usize),
    Done,
}

/// One thing that the trial asks of the device.
#[derive(Clone, Copy, PartialEq, Eq, Structural, Debug)]
pub enum TrialOp {
    Create,
    Reserve { session: u64, token_start: u32, overwrite: bool },
    Branch { parent: u64 },
    Stats,
    Destroy { session: u64 },
}

/// What came back: zero or a negated error number, the session or block, and the
/// number of private copies made so far.
#[derive(Clone, Copy, PartialEq, Eq, Structural, Debug)]
pub struct TrialReply {
    pub rc: i32,
    pub id: u64,
    pub cow_breaks: u64,
}

/// The trial of copy on write.
pub struct CowTrial {
    pub stage: TrialStage,
    pub parent: u64,
    pub block_ids: Vec<u64>,
    pub children: Vec<u64>,
    pub grandchild: u64,
    /// The private copy of the first case.
    pub new_a: u64,
    /// What the last reservation came back with.
    pub rc: i32,
    pub block_id: u64,
    pub passed: u32,
    pub failed: u32,
    pub gave_up_at: Option<usize>,
}

/// The trial, as mathematical values.
#[verifier::ext_equal]
pub struct TrialView {
    pub stage: TrialStage,
    pub parent: u64,
    pub block_ids: Seq<u64>,
    pub children: Seq<u64>,
    pub grandchild: u64,
    pub new_a: u64,
    pub rc: i32,
    pub block_id: u64,
    pub passed: u32,
    pub failed: u32,
    pub gave_up_at: Option<usize>,
}

impl View for CowTrial {
    type V = TrialView;

    open spec fn view(&self) -> TrialView {
        TrialView {
            stage: self.stage,
            parent: self.parent,
            block_ids: self.block_ids@,
            children: self.children@,
            grandchild: self.grandchild,
            new_a: self.new_a,
            rc: self.rc,
            block_id: self.block_id,
            passed: self.passed,
            failed: self.failed,
            gave_up_at: self.gave_up_at,
        }
    }
}

/// How many cases have been judged.
pub open spec fn judged(stage: TrialStage) -> int {
    match stage {
        TrialStage::Case(i) => i as int,
        TrialStage::Stats(i) => i as int,
        TrialStage::BranchAgain => 5,
        TrialStage::DestroyGrandchild => TRIAL_CASES as int,
        TrialStage::DestroyChild(_) => TRIAL_CASES as int,
        TrialStage::DestroyParent => TRIAL_CASES as int,
        TrialStage::Done => TRIAL_CASES as int,
        _ => 0,
    }
}

impl TrialView {
    /// What was made so far is known, and the cases are counted.
    pub open spec fn wf(self) -> bool {
        &&& self.gave_up_at is None ==> self.passed + self.failed == judged(self.stage)
        &&& self.gave_up_at is Some ==> self.stage is GiveUp || self.stage is Done
        &&& match self.stage {
            TrialStage::Create => self.block_ids.len() == 0 && self.children.len() == 0,
            TrialStage::Prompt(i) => i < TRIAL_BLOCKS && self.block_ids.len() == i
                && self.children.len() == 0,
            TrialStage::Branch(i) => i < TRIAL_CHILDREN && self.block_ids.len() == TRIAL_BLOCKS
                && self.children.len() == i,
            TrialStage::GiveUp(i) => self.gave_up_at == Some(i),
            TrialStage::Done => true,
            TrialStage::Case(i) => i < TRIAL_CASES && self.block_ids.len() == TRIAL_BLOCKS
                && self.children.len() == TRIAL_CHILDREN,
            TrialStage::Stats(i) => i < TRIAL_CASES && i != 3 && self.block_ids.len()
                == TRIAL_BLOCKS && self.children.len() == TRIAL_CHILDREN,
            TrialStage::DestroyChild(i) => i < TRIAL_CHILDREN && self.block_ids.len()
                == TRIAL_BLOCKS && self.children.len() == TRIAL_CHILDREN,
            _ => self.block_ids.len() == TRIAL_BLOCKS && self.children.len() == TRIAL_CHILDREN,
        }
    }

    /// The reservation of a case: the first branch writes block 0, the second one
    /// too, the first one again, the third one without leave, then block 1; a
    /// branch of the first one writes block 2, then block 0.
    pub open spec fn case_op(self, i: int) -> TrialOp {
        if i == 0 {
            TrialOp::Reserve { session: self.children[0], token_start: 0, overwrite: true }
        } else if i == 1 {
            TrialOp::Reserve { session: self.children[1], token_start: 0, overwrite: true }
        } else if i == 2 {
            TrialOp::Reserve { session: self.children[0], token_start: 0, overwrite: true }
        } else if i == 3 {
            TrialOp::Reserve { session: self.children[2], token_start: 0, overwrite: false }
        } else if i == 4 {
            TrialOp::Reserve { session: self.children[2], token_start: 16, overwrite: true }
        } else if i == 5 {
            TrialOp::Reserve { session: self.grandchild, token_start: 32, overwrite: true }
        } else {
            TrialOp::Reserve { session: self.grandchild, token_start: 0, overwrite: true }
        }
    }

    /// Whether a case went as it should: each private copy is a new block and is
    /// counted, a block that is private already is written in place, and without
    /// leave nothing is overwritten.
    pub open spec fn verdict(self, i: int, rc: i32, block_id: u64, cow_breaks: u64) -> bool {
        if i == 0 {
            rc == 0 && cow_breaks == 1 && block_id != self.block_ids[0]
        } else if i == 1 {
            rc == 0 && cow_breaks == 2 && block_id != self.block_ids[0] && block_id != self.new_a
        } else if i == 2 {
            rc == 0 && block_id == self.new_a && cow_breaks == 2
        } else if i == 3 {
            rc == -EINVAL
        } else if i == 4 {
            rc == 0 && cow_breaks == 3 && block_id != self.block_ids[1]
        } else if i == 5 {
            rc == 0 && cow_breaks == 4 && block_id != self.block_ids[2]
        } else {
            rc == 0 && cow_breaks == 5 && block_id != self.new_a
        }
    }

    /// What is asked next.
    pub open spec fn next(self) -> Option<TrialOp> {
        match self.stage {
            TrialStage::Create => Some(TrialOp::Create),
            TrialStage::Prompt(i) => Some(
                TrialOp::Reserve {
                    session: self.parent,
                    token_start: (i * TRIAL_TOKENS) as u32,
                    overwrite: false,
                },
            ),
            TrialStage::Branch(_) => Some(TrialOp::Branch { parent: self.parent }),
            TrialStage::BranchAgain => Some(TrialOp::Branch { parent: self.children[0] }),
            TrialStage::Case(i) => Some(self.case_op(i as int)),
            TrialStage::Stats(_) => Some(TrialOp::Stats),
            TrialStage::DestroyGrandchild => Some(TrialOp::Destroy { session: self.grandchild }),
            TrialStage::DestroyChild(i) => Some(
                TrialOp::Destroy { session: self.children[i as int] },
            ),
            TrialStage::DestroyParent => Some(TrialOp::Destroy { session: self.parent }),
            TrialStage::GiveUp(_) => Some(TrialOp::Destroy { session: self.parent }),
            TrialStage::Done => None,
        }
    }

    /// The stage behind a case.
    pub open spec fn stage_after(self, i: int) -> TrialStage {
        if i == 4 {
            TrialStage::BranchAgain
        } else if i + 1 < TRIAL_CASES {
            TrialStage::Case((i + 1) as usize)
        } else {
            TrialStage::DestroyGrandchild
        }
    }

    /// With a case judged.
    pub open spec fn with_judgement(self, i: int, good: bool) -> TrialView {
        TrialView {
            stage: self.stage_after(i),
            passed: (self.passed + if good {
                1int
            } else {
                0
            }) as u32,
            failed: (self.failed + if good {
                0int
            } else {
                1
            }) as u32,
            ..self
        }
    }

    /// The trial after a reply.
    pub open spec fn after(self, reply: TrialReply) -> TrialView {
        match self.stage {
            TrialStage::Create => TrialView {
                parent: reply.id,
                stage: TrialStage::Prompt(0),
                ..self
            },
            TrialStage::Prompt(i) => if reply.rc != 0 {
                TrialView { stage: TrialStage::GiveUp(i), gave_up_at: Some(i), ..self }
            } else {
                TrialView {
                    block_ids: self.block_ids.push(reply.id),
                    stage: if i + 1 < TRIAL_BLOCKS {
                        TrialStage::Prompt((i + 1) as usize)
                    } else {
                        TrialStage::Branch(0)
                    },
                    ..self
                }
            },
            TrialStage::Branch(i) => TrialView {
                children: self.children.push(reply.id),
                stage: if i + 1 < TRIAL_CHILDREN {
                    TrialStage::Branch((i + 1) as usize)
                } else {
                    TrialStage::Case(0)
                },
                ..self
            },
            TrialStage::BranchAgain => TrialView {
                grandchild: reply.id,
                stage: TrialStage::Case(5),
                ..self
            },
            TrialStage::Case(i) => {
                let t = TrialView {
                    rc: reply.rc,
                    block_id: reply.id,
                    new_a: if i == 0 {
                        reply.id
                    } else {
                        self.new_a
                    },
                    ..self
                };
                if i == 3 {
                    t.with_judgement(3, self.verdict(3, reply.rc, reply.id, 0))
                } else {
                    TrialView { stage: TrialStage::Stats(i), ..t }
                }
            },
            TrialStage::Stats(i) => self.with_judgement(
                i as int,
                self.verdict(i as int, self.rc, self.block_id, reply.cow_breaks),
            ),
            TrialStage::DestroyGrandchild => TrialView {
                stage: TrialStage::DestroyChild(0),
                ..self
            },
            TrialStage::DestroyChild(i) => TrialView {
                stage: if i + 1 < TRIAL_CHILDREN {
                    TrialStage::DestroyChild((i + 1) as usize)
                } else {
                    TrialStage::DestroyParent
                },
                ..self
            },
            TrialStage::DestroyParent => TrialView { stage: TrialStage::Done, ..self },
            TrialStage::GiveUp(_) => TrialView { stage: TrialStage::Done, ..self },
            TrialStage::Done => self,
        }
    }

    /// What came of the trial, once it is done.
    pub open spec fn result(self) -> TrialResult {
        match self.gave_up_at {
            Some(i) => TrialResult::SetupFailed(i),
            None => if self.failed > 0 {
                TrialResult::Failed { passed: self.passed, failed: self.failed }
            } else {
                TrialResult::Passed { passed: self.passed }
            },
        }
    }
}

/// What came of the trial.
#[derive(Clone, Copy, PartialEq, Eq, Structural, Debug)]
pub enum TrialResult {
    Passed { passed: u32 },
    Failed { passed: u32, failed: u32 },
    SetupFailed(usize),
}

impl CowTrial {
    /// Start the trial.
    pub fn new() -> (r: CowTrial)
        ensures
            r@ == (TrialView {
                stage: TrialStage::Create,
                parent: 0,
                block_ids: Seq::empty(),
                children: Seq::empty(),
                grandchild: 0,
                new_a: 0,
                rc: 0,
                block_id: 0,
                passed: 0,
                failed: 0,
                gave_up_at: None,
            }),
            r@.wf(),
    {
        CowTrial {
            stage: TrialStage::Create,
            parent: 0,
            block_ids: Vec::new(),
            children: Vec::new(),
            grandchild: 0,
            new_a: 0,
            rc: 0,
            block_id: 0,
            passed: 0,
            failed: 0,
            gave_up_at: None,
        }
    }

    /// What is asked next.
    pub fn op(&self) -> (r: Option<TrialOp>)
        requires
            self@.wf(),
        ensures
            r == self@.next(),
    {
        match self.stage {
            TrialStage::Create => Some(TrialOp::Create),
            TrialStage::Prompt(i) => Some(
                TrialOp::Reserve {
                    session: self.parent,
                    token_start: (i as u32) * TRIAL_TOKENS,
                    overwrite: false,
                },
            ),
            TrialStage::Branch(_) => Some(TrialOp::Branch { parent: self.parent }),
            TrialStage::BranchAgain => Some(TrialOp::Branch { parent: self.children[0] }),
            TrialStage::Case(i) => {
                let (session, token_start) = if i == 0 || i == 2 {
                    (self.children[0], 0u32)
                } else if i == 1 {
                    (self.children[1], 0u32)
                } else if i == 3 {
                    (self.children[2], 0u32)
                } else if i == 4 {
                    (self.children[2], 16u32)
                } else if i == 5 {
                    (self.grandchild, 32u32)
                } else {
                    (self.grandchild, 0u32)
                };
                Some(TrialOp::Reserve { session, token_start, overwrite: i != 3 })
            },
            TrialStage::Stats(_) => Some(TrialOp::Stats),
            TrialStage::DestroyGrandchild => Some(TrialOp::Destroy { session: self.grandchild }),
            TrialStage::DestroyChild(i) => Some(TrialOp::Destroy { session: self.children[i] }),
            TrialStage::DestroyParent => Some(TrialOp::Destroy { session: self.parent }),
            TrialStage::GiveUp(_) => Some(TrialOp::Destroy { session: self.parent }),
            TrialStage::Done => None,
        }
    }

    /// Whether a case went as it should.
    fn judge(&self, i: usize, rc: i32, block_id: u64, cow_breaks: u64) -> (r: bool)
        requires
            self@.block_ids.len() == TRIAL_BLOCKS,
            i < TRIAL_CASES,
        ensures
            r == self@.verdict(i as int, rc, block_id, cow_breaks),
    {
        if i == 0 {
            rc == 0 && cow_breaks == 1 && block_id != self.block_ids[0]
        } else if i == 1 {
            rc == 0 && cow_breaks == 2 && block_id != self.block_ids[0] && block_id != self.new_a
        } else if i == 2 {
            rc == 0 && block_id == self.new_a && cow_breaks == 2
        } else if i == 3 {
            rc == -EINVAL
        } else if i == 4 {
            rc == 0 && cow_breaks == 3 && block_id != self.block_ids[1]
        } else if i == 5 {
            rc == 0 && cow_breaks == 4 && block_id != self.block_ids[2]
        } else {
            rc == 0 && cow_breaks == 5 && block_id != self.new_a
        }
    }

    /// Count a case, and go on to the next.
    fn count(&mut self, i: usize, good: bool)
        requires
            i < TRIAL_CASES,
            old(self)@.passed + old(self)@.failed <= TRIAL_CASES,
        ensures
            final(self)@ == old(self)@.with_judgement(i as int, good),
    {
        if good {
            self.passed = self.passed + 1;
        } else {
            self.failed = self.failed + 1;
        }
        self.stage = if i == 4 {
            TrialStage::BranchAgain
        } else if i + 1 < TRIAL_CASES {
            TrialStage::Case(i + 1)
        } else {
            TrialStage::DestroyGrandchild
        };
    }

    /// Take note of a reply.
    pub fn note(&mut self, reply: &TrialReply)
        requires
            old(self)@.wf(),
        ensures
            final(self)@ == old(self)@.after(*reply),
            final(self)@.wf(),
    {
        match self.stage {
            TrialStage::Create => {
                self.parent = reply.id;
                self.stage = TrialStage::Prompt(0);
            },
            TrialStage::Prompt(i) => {
                if reply.rc != 0 {
                    self.stage = TrialStage::GiveUp(i);
                    self.gave_up_at = Some(i);
                } else {
                    self.block_ids.push(reply.id);
                    self.stage = if i + 1 < TRIAL_BLOCKS {
                        TrialStage::Prompt(i + 1)
                    } else {
                        TrialStage::Branch(0)
                    };
                }
            },
            TrialStage::Branch(i) => {
                self.children.push(reply.id);
                self.stage = if i + 1 < TRIAL_CHILDREN {
                    TrialStage::Branch(i + 1)
                } else {
                    TrialStage::Case(0)
                };
            },
            TrialStage::BranchAgain => {
                self.grandchild = reply.id;
                self.stage = TrialStage::Case(5);
            },
            TrialStage::Case(i) => {
                let good = if i == 3 {
                    self.judge(3, reply.rc, reply.id, 0)
                } else {
                    false
                };
                self.rc = reply.rc;
                self.block_id = reply.id;
                if i == 0 {
                    self.new_a = reply.id;
                }
                if i == 3 {
                    self.count(3, good);
                } else {
                    self.stage = TrialStage::Stats(i);
                }
            },
            TrialStage::Stats(i) => {
                let good = self.judge(i, self.rc, self.block_id, reply.cow_breaks);
                self.count(i, good);
            },
            TrialStage::DestroyGrandchild => {
                self.stage = TrialStage::DestroyChild(0);
            },
            TrialStage::DestroyChild(i) => {
                self.stage = if i + 1 < TRIAL_CHILDREN {
                    TrialStage::DestroyChild(i + 1)
                } else {
                    TrialStage::DestroyParent
                };
            },
            TrialStage::DestroyParent => {
                self.stage = TrialStage::Done;
            },
            TrialStage::GiveUp(_) => {
                self.stage = TrialStage::Done;
            },
            TrialStage::Done => {},
        }
    }

    /// What came of the trial, once it is done.
    pub fn outcome(&self) -> (r: TrialResult)
        ensures
            r == self@.result(),
    {
        match self.gave_up_at {
            Some(i) => TrialResult::SetupFailed(i),
            None => if self.failed > 0 {
                TrialResult::Failed { passed: self.passed, failed: self.failed }
            } else {
                TrialResult::Passed { passed: self.passed }
            },
        }
    }
}

/// The trial passes only if all of its cases went as they should.
pub proof fn law_trial_passes_only_in_full(t: TrialView)
    requires
        t.wf(),
        t.stage is Done,
        t.result() is Passed,
    ensures
        t.passed == TRIAL_CASES,
        t.failed == 0,
{
}

// ─── Traces ─────────────────────────────────────────────────────────────────

/// The names of the columns of a trace.
pub open spec fn trace_header() -> Seq<u8> {
    "timestamp_ns,operation,session_id,token_start,token_count,block_id,gpu_id,latency_us\n".spec_bytes()
}

/// A comma and a number.
pub open spec fn column(n: int) -> Seq<u8> {
    ",".spec_bytes() + decimal(n as nat)
}

/// A line of a trace.
pub open spec fn trace_line(
    ts: u64,
    op: Seq<u8>,
    session_id: u64,
    token_start: u32,
    token_count: u32,
    block_id: u64,
    gpu_id: u32,
    latency_us: u64,
) -> Seq<u8> {
    decimal(ts as nat) + ",".spec_bytes() + op + column(session_id as int) + column(
        token_start as int,
    ) + column(token_count as int) + column(block_id as int) + column(gpu_id as int) + column(
        latency_us as int,
    ) + "\n".spec_bytes()
}

/// Append a comma and a number.
fn push_column(out: &mut Vec<u8>, n: u64)
    ensures
        final(out)@ == old(out)@ + column(n as int),
{
    push_str(out, ",");
    push_decimal(out, n);
    assert(out@ =~= old(out)@ + column(n as int));
}

/// The names of the columns of a trace.
pub fn header() -> (r: Vec<u8>)
    ensures
        r@ == trace_header(),
{
    let mut out: Vec<u8> = Vec::new();
    push_str(
        &mut out,
        "timestamp_ns,operation,session_id,token_start,token_count,block_id,gpu_id,latency_us\n",
    );
    assert(out@ =~= trace_header());
    out
}

/// A line of a trace.
pub fn record(
    ts: u64,
    op: &str,
    session_id: u64,
    token_start: u32,
    token_count: u32,
    block_id: u64,
    gpu_id: u32,
    latency_us: u64,
) -> (r: Vec<u8>)
    ensures
        r@ == trace_line(
            ts,
            op.spec_bytes(),
            session_id,
            token_start,
            token_count,
            block_id,
            gpu_id,
            latency_us,
        ),
{
    let mut out: Vec<u8> = Vec::new();
    push_decimal(&mut out, ts);
    push_str(&mut out, ",");
    push_str(&mut out, op);
    push_column(&mut out, session_id);
    push_column(&mut out, token_start as u64);
    push_column(&mut out, token_count as u64);
    push_column(&mut out, block_id);
    push_column(&mut out, gpu_id as u64);
    push_column(&mut out, latency_us);
    push_str(&mut out, "\n");
    assert(out@ =~= trace_line(
        ts,
        op.spec_bytes(),
        session_id,
        token_start,
        token_count,
        block_id,
        gpu_id,
        latency_us,
    ));
    out
}

} // verus!
