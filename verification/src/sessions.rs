//! Opening, branching, closing and listing sessions.

use crate::abi::{
    PolarisBlockState, PolarisListSessionsArg, PolarisSessionBranchArg, PolarisSessionCreateArg,
    PolarisSessionDestroyArg, PolarisSessionGetStatsArg, POLARIS_DEFAULT_BYTES_PER_TOKEN,
    POLARIS_DEFAULT_SESSION_VA_BYTES, POLARIS_MAX_SESSIONS_PER_LIST, POLARIS_VA_ALIGNMENT,
};
use crate::errno::{ENODEV, ENOENT, ENOMEM};
use crate::num::{round_up, sat_add};
use crate::seqs::{any, first_index, lemma_first_index, retain};
use crate::state::{block_is, PolarisInner, PolarisView};
use crate::types::{
    session_views, PolarisBlock, PolarisBlockFlags, PolarisBlockMapping, PolarisGpu, PolarisSession,
    SessionView, POLARIS_MAX_PENDING_DECISIONS,
};
use vstd::prelude::*;

verus! {

// ─── Addresses for a session ────────────────────────────────────────────────

/// What comes of taking `bytes` from the range of GPU `g`: the base address, or
/// nothing where the range has no room for them.
pub open spec fn taking_va(v: PolarisView, g: int, bytes: u64) -> (Option<u64>, PolarisView) {
    let gpu = v.gpus[g];
    let aligned = round_up(bytes as int, POLARIS_VA_ALIGNMENT as int);
    if gpu.next_va_offset + aligned > gpu.va_range_length {
        (None, v)
    } else {
        (
            Some((gpu.va_range_base + gpu.next_va_offset) as u64),
            PolarisView {
                gpus: v.gpus.update(
                    g,
                    PolarisGpu { next_va_offset: (gpu.next_va_offset + aligned) as u64, ..gpu },
                ),
                ..v
            },
        )
    }
}

/// The address arithmetic of taking `bytes` from a GPU's range fits the machine.
pub open spec fn va_fits(gpu: PolarisGpu, bytes: u64) -> bool {
    gpu.va_range_registered ==> {
        &&& bytes + POLARIS_VA_ALIGNMENT <= u64::MAX
        &&& gpu.next_va_offset + round_up(bytes as int, POLARIS_VA_ALIGNMENT as int) <= u64::MAX
        &&& gpu.va_range_base + gpu.next_va_offset <= u64::MAX
    }
}

/// Clearing the low bits rounds down to a multiple of the alignment.
proof fn lemma_align_mask(x: u64)
    ensures
        x & !0x1f_ffffu64 == x - x % 0x20_0000,
{
    assert(x & !0x1f_ffffu64 == x - x % 0x20_0000) by (bit_vector);
}

/// The least multiple of the address alignment that is not below `n`.
pub fn align_va(n: u64) -> (r: u64)
    requires
        n + POLARIS_VA_ALIGNMENT <= u64::MAX,
    ensures
        r == round_up(n as int, POLARIS_VA_ALIGNMENT as int),
{
    let x: u64 = n + POLARIS_VA_ALIGNMENT - 1;
    proof {
        lemma_align_mask(x);
        vstd::arithmetic::div_mod::lemma_fundamental_div_mod(x as int, 0x20_0000);
        assert(!0x1f_ffffu64 == !((0x20_0000u64 - 1) as u64));
    }
    x & !(POLARIS_VA_ALIGNMENT - 1)
}

// ─── Opening ────────────────────────────────────────────────────────────────

/// How many bytes of addresses a session asks for.
pub open spec fn asked_va(arg: PolarisSessionCreateArg) -> u64 {
    if arg.gpu_vas_bytes > 0 {
        arg.gpu_vas_bytes
    } else {
        POLARIS_DEFAULT_SESSION_VA_BYTES
    }
}

/// A session that has nothing yet.
pub open spec fn fresh_session(
    id: u64,
    arg: PolarisSessionCreateArg,
    base: u64,
    size: u64,
) -> SessionView {
    SessionView {
        session_id: id,
        home_gpu: arg.home_gpu,
        gpu_vas_base: base,
        gpu_vas_size: size,
        beam_width: arg.beam_width,
        bytes_per_token: if arg.bytes_per_token > 0 {
            arg.bytes_per_token
        } else {
            POLARIS_DEFAULT_BYTES_PER_TOKEN
        },
        parent_session_id: 0,
        priority: if arg.priority > 0 {
            arg.priority
        } else {
            5
        },
        active_read_start_token: 0,
        active_read_token_count: 0,
        active_write_start_token: 0,
        active_write_token_count: 0,
        block_ids: Seq::empty(),
    }
}

/// The state after a session is entered under the next id.
pub open spec fn entering(v: PolarisView, s: SessionView) -> PolarisView {
    PolarisView {
        next_session_id: (v.next_session_id + 1) as u64,
        sessions: v.sessions.push(s),
        ..v
    }
}

/// What comes of opening a session: it gets addresses from the range of its
/// GPU where one is registered, and is refused on an unhealthy GPU or when the
/// range is used up.
pub open spec fn creating(v: PolarisView, arg: PolarisSessionCreateArg) -> (Result<
    PolarisSessionCreateArg,
    i32,
>, PolarisView) {
    let id = v.next_session_id;
    let done = Ok(PolarisSessionCreateArg { session_id: id, ..arg });
    match v.find_gpu(arg.home_gpu) {
        Some(g) => if !v.gpus[g].healthy {
            (Err(ENODEV), v)
        } else if v.gpus[g].va_range_registered {
            match taking_va(v, g, asked_va(arg)) {
                (None, _) => (Err(ENOMEM), v),
                (Some(base), w) => (
                    done,
                    entering(w, fresh_session(id, arg, base, asked_va(arg))),
                ),
            }
        } else {
            (done, entering(v, fresh_session(id, arg, 0, arg.gpu_vas_bytes)))
        },
        None => (done, entering(v, fresh_session(id, arg, 0, arg.gpu_vas_bytes))),
    }
}

/// The counters and the address arithmetic have room for a session.
pub open spec fn create_fits(v: PolarisView, arg: PolarisSessionCreateArg) -> bool {
    &&& v.next_session_id < u64::MAX
    &&& v.find_gpu(arg.home_gpu) matches Some(g) ==> va_fits(v.gpus[g], asked_va(arg))
}

// ─── Branching ──────────────────────────────────────────────────────────────

/// The blocks after one more session shares those with the ids.
pub open spec fn shared_once_more(blocks: Seq<PolarisBlock>, ids: Seq<u64>) -> Seq<PolarisBlock>
    decreases ids.len(),
{
    if ids.len() == 0 {
        blocks
    } else {
        let before = shared_once_more(blocks, ids.drop_last());
        match first_index(before, block_is(ids.last())) {
            Some(i) => before.update(
                i,
                PolarisBlock {
                    refcount: (before[i].refcount + 1) as u64,
                    flags: PolarisBlockFlags { shared: true },
                    ..before[i]
                },
            ),
            None => before,
        }
    }
}

/// What comes of branching a session: the child shares every block of its
/// parent and gets addresses of its own where the GPU has a range. The blocks
/// are marked shared, and an id is used up, before the range is found to be
/// full.
pub open spec fn branching(v: PolarisView, arg: PolarisSessionBranchArg) -> (Result<
    PolarisSessionBranchArg,
    i32,
>, PolarisView) {
    match v.find_session(arg.parent_session_id) {
        None => (Err(ENOENT), v),
        Some(p) => {
            let parent = v.sessions[p];
            let child_id = v.next_session_id;
            let shared = PolarisView {
                blocks: shared_once_more(v.blocks, parent.block_ids),
                ..v
            };
            let child = SessionView {
                session_id: child_id,
                parent_session_id: arg.parent_session_id,
                active_read_start_token: 0,
                active_read_token_count: 0,
                active_write_start_token: 0,
                active_write_token_count: 0,
                ..parent
            };
            let done = Ok(PolarisSessionBranchArg { child_session_id: child_id, ..arg });
            match v.find_gpu(parent.home_gpu) {
                Some(g) => if !v.gpus[g].healthy {
                    (Err(ENODEV), v)
                } else if v.gpus[g].va_range_registered {
                    match taking_va(shared, g, parent.gpu_vas_size) {
                        (None, _) => (
                            Err(ENOMEM),
                            PolarisView {
                                next_session_id: (v.next_session_id + 1) as u64,
                                ..shared
                            },
                        ),
                        (Some(base), w) => (
                            done,
                            entering(w, SessionView { gpu_vas_base: base, ..child }),
                        ),
                    }
                } else {
                    (done, entering(shared, child))
                },
                None => (done, entering(shared, child)),
            }
        },
    }
}

/// The counters and the address arithmetic have room for a branch.
pub open spec fn branch_fits(v: PolarisView, arg: PolarisSessionBranchArg) -> bool {
    &&& v.next_session_id < u64::MAX
    &&& v.find_session(arg.parent_session_id) matches Some(p) ==> {
        let parent = v.sessions[p];
        &&& v.find_gpu(parent.home_gpu) matches Some(g) ==> va_fits(
            v.gpus[g],
            parent.gpu_vas_size,
        )
        &&& forall|i: int|
            0 <= i < v.blocks.len() ==> (#[trigger] v.blocks[i]).refcount + parent.block_ids.len()
                <= u64::MAX
    }
}

// ─── Closing ────────────────────────────────────────────────────────────────

/// Positions as mathematical indices.
pub open spec fn as_ints(s: Seq<usize>) -> Seq<int> {
    Seq::new(s.len(), |k: int| s[k] as int)
}

/// Where the first `n` blocks hold those that a session reserved.
pub open spec fn own_places(blocks: Seq<PolarisBlock>, session_id: u64, n: int) -> Seq<int>
    decreases n,
{
    if n <= 0 {
        Seq::empty()
    } else {
        let before = own_places(blocks, session_id, n - 1);
        if blocks[n - 1].session_id == session_id {
            before.push(n - 1)
        } else {
            before
        }
    }
}

/// A block with the id is at one of the places.
pub open spec fn placed(blocks: Seq<PolarisBlock>, places: Seq<int>, id: u64) -> bool {
    exists|k: int| 0 <= k < places.len() && blocks[#[trigger] places[k]].block_id == id
}

/// The places, and those of the blocks with the ids that are not at one yet.
pub open spec fn places_with_listed(blocks: Seq<PolarisBlock>, own: Seq<int>, ids: Seq<u64>) -> Seq<
    int,
>
    decreases ids.len(),
{
    if ids.len() == 0 {
        own
    } else {
        let before = places_with_listed(blocks, own, ids.drop_last());
        if placed(blocks, before, ids.last()) {
            before
        } else {
            match first_index(blocks, block_is(ids.last())) {
                Some(i) => before.push(i),
                None => before,
            }
        }
    }
}

/// Where the blocks are that the end of a session concerns: first its own, then
/// those that it inherited.
pub open spec fn concerned(v: PolarisView, s: SessionView) -> Seq<int> {
    places_with_listed(
        v.blocks,
        own_places(v.blocks, s.session_id, v.blocks.len() as int),
        s.block_ids,
    )
}

/// The executor has to be asked before the block can go.
pub open spec fn needs_asking(b: PolarisBlock) -> bool {
    b.refcount <= 1 && b.needs_free()
}

/// How many of the blocks at the places the executor has to be asked about.
pub open spec fn asking_count(blocks: Seq<PolarisBlock>, places: Seq<int>) -> int
    decreases places.len(),
{
    if places.len() == 0 {
        0
    } else {
        asking_count(blocks, places.drop_last()) + if needs_asking(blocks[places.last()]) {
            1int
        } else {
            0
        }
    }
}

/// Mappings but those of a block that reach into a range of a GPU's addresses.
pub open spec fn mapping_outside(block_id: u64, gpu_id: u32, start: u64, end: u64) -> spec_fn(
    PolarisBlockMapping,
) -> bool {
    |m: PolarisBlockMapping|
        !(m.block_id == block_id && m.gpu_id == gpu_id && m.base < end && sat_add(m.base, m.length)
            > start)
}

/// The state after a session that ends lets go of block `i`: a shared block
/// loses a reference and the session's mappings of it; one that the executor
/// holds memory for is to be freed; any other is marked to go.
pub open spec fn letting_go(v: PolarisView, s: SessionView, i: int) -> PolarisView {
    let b = v.blocks[i];
    if b.refcount > 1 {
        PolarisView {
            block_mappings: v.block_mappings.filter(
                mapping_outside(
                    b.block_id,
                    s.home_gpu,
                    s.gpu_vas_base,
                    sat_add(s.gpu_vas_base, s.gpu_vas_size),
                ),
            ),
            ..v.with_block(i, b.with_reference_dropped())
        }
    } else if b.state is FreePending {
        v
    } else {
        let w = if v.daemon_attached > 0 && b.needs_free() {
            v.queue_free(i).1
        } else {
            v.accounting_removal(b).with_block(i, PolarisBlock { refcount: 0, ..b })
        };
        w.forgetting_static_blocks_of(b.block_id).without_mappings_of(b.block_id)
    }
}

/// The state after a session lets go of the blocks at all the places in turn.
pub open spec fn letting_go_of_all(v: PolarisView, s: SessionView, places: Seq<int>) -> PolarisView
    decreases places.len(),
{
    if places.len() == 0 {
        v
    } else {
        letting_go(letting_go_of_all(v, s, places.drop_last()), s, places.last())
    }
}

/// Blocks that stay when a session ends: those to be freed, those still shared,
/// and those that it did not concern.
pub open spec fn stays(before: Seq<PolarisBlock>, places: Seq<int>) -> spec_fn(PolarisBlock) -> bool {
    |b: PolarisBlock|
        b.state is FreePending || b.refcount != 0 || !placed(before, places, b.block_id)
}

/// Mappings of a block that is in the table.
pub open spec fn maps_one_of(blocks: Seq<PolarisBlock>) -> spec_fn(PolarisBlockMapping) -> bool {
    |m: PolarisBlockMapping| any(blocks, block_is(m.block_id))
}

/// Other sessions.
pub open spec fn session_is_not(id: u64) -> spec_fn(SessionView) -> bool {
    |s: SessionView| s.session_id != id
}

/// The end of the session would need more decisions than the queue has room for.
pub open spec fn too_many_to_free(v: PolarisView, s: SessionView) -> bool {
    v.daemon_attached > 0 && v.pending_decisions.len() + asking_count(v.blocks, concerned(v, s))
        > POLARIS_MAX_PENDING_DECISIONS
}

/// The state after session `s` ended.
pub open spec fn ended(v: PolarisView, s: SessionView) -> PolarisView {
    let places = concerned(v, s);
    let w = letting_go_of_all(v, s, places);
    let blocks = w.blocks.filter(stays(v.blocks, places));
    PolarisView {
        sessions: w.sessions.filter(session_is_not(s.session_id)),
        blocks,
        block_mappings: w.block_mappings.filter(maps_one_of(blocks)),
        ..w
    }
}

/// What comes of closing a session: refused as a whole where the queue has no
/// room for all the memory to be given back.
pub open spec fn destroying(v: PolarisView, arg: PolarisSessionDestroyArg) -> (Result<
    (),
    i32,
>, PolarisView) {
    match v.find_session(arg.session_id) {
        None => (Err(ENOENT), v),
        Some(k) => if too_many_to_free(v, v.sessions[k]) {
            (Err(ENOMEM), v)
        } else {
            (Ok(()), ended(v, v.sessions[k]))
        },
    }
}

// ─── Lemmas ─────────────────────────────────────────────────────────────────

/// Sharing once more keeps the table's shape: every block keeps its id, and
/// gains at most as many references as there are ids.
pub proof fn lemma_shared_once_more(blocks: Seq<PolarisBlock>, ids: Seq<u64>)
    requires
        forall|i: int|
            0 <= i < blocks.len() ==> (#[trigger] blocks[i]).refcount + ids.len() <= u64::MAX,
    ensures
        shared_once_more(blocks, ids).len() == blocks.len(),
        forall|i: int|
            0 <= i < blocks.len() ==> {
                let b = #[trigger] shared_once_more(blocks, ids)[i];
                &&& blocks[i].refcount <= b.refcount <= blocks[i].refcount + ids.len()
                &&& b == PolarisBlock { refcount: b.refcount, flags: b.flags, ..blocks[i] }
                &&& b.refcount > blocks[i].refcount ==> b.flags.shared
                &&& b.refcount == blocks[i].refcount ==> b == blocks[i]
            },
    decreases ids.len(),
{
    if ids.len() > 0 {
        lemma_shared_once_more(blocks, ids.drop_last());
        let before = shared_once_more(blocks, ids.drop_last());
        lemma_first_index(before, block_is(ids.last()));
    }
}

/// Every place is one of the table.
pub proof fn lemma_own_places(blocks: Seq<PolarisBlock>, session_id: u64, n: int)
    requires
        0 <= n <= blocks.len(),
    ensures
        forall|k: int|
            0 <= k < own_places(blocks, session_id, n).len() ==> 0 <= #[trigger] own_places(
                blocks,
                session_id,
                n,
            )[k] < n && blocks[own_places(blocks, session_id, n)[k]].session_id == session_id,
        own_places(blocks, session_id, n).len() <= n,
        forall|i: int|
            #![trigger blocks[i]]
            0 <= i < n && blocks[i].session_id == session_id ==> own_places(
                blocks,
                session_id,
                n,
            ).contains(i),
        own_places(blocks, session_id, n).no_duplicates(),
    decreases n,
{
    if n > 0 {
        lemma_own_places(blocks, session_id, n - 1);
        let before = own_places(blocks, session_id, n - 1);
        let after = own_places(blocks, session_id, n);
        assert forall|i: int|
            #![trigger blocks[i]]
            0 <= i < n && blocks[i].session_id == session_id implies after.contains(i) by {
            if i == n - 1 {
                assert(after[before.len() as int] == i);
            } else {
                let k = choose|k: int| 0 <= k < before.len() && before[k] == i;
                assert(after[k] == i);
            }
        }
    }
}

/// Every place is one of the table, and none comes twice.
pub proof fn lemma_places_with_listed(blocks: Seq<PolarisBlock>, own: Seq<int>, ids: Seq<u64>)
    requires
        forall|k: int| 0 <= k < own.len() ==> 0 <= #[trigger] own[k] < blocks.len(),
        own.no_duplicates(),
    ensures
        ({
            let all = places_with_listed(blocks, own, ids);
            &&& forall|k: int| 0 <= k < all.len() ==> 0 <= #[trigger] all[k] < blocks.len()
            &&& all.no_duplicates()
            &&& all.len() <= own.len() + ids.len()
            &&& own.len() <= all.len()
            &&& forall|k: int| 0 <= k < own.len() ==> #[trigger] all[k] == own[k]
        }),
    decreases ids.len(),
{
    if ids.len() > 0 {
        lemma_places_with_listed(blocks, own, ids.drop_last());
        lemma_first_index(blocks, block_is(ids.last()));
        let before = places_with_listed(blocks, own, ids.drop_last());
        if !placed(blocks, before, ids.last()) {
            if let Some(i) = first_index(blocks, block_is(ids.last())) {
                let after = before.push(i);
                assert forall|a: int, b: int|
                    0 <= a < after.len() && 0 <= b < after.len() && a != b implies after[a]
                    != after[b] by {
                    if a == before.len() {
                        assert(blocks[before[b]].block_id != ids.last());
                    }
                    if b == before.len() {
                        assert(blocks[before[a]].block_id != ids.last());
                    }
                }
            }
        }
    }
}

/// The places that the end of a session concerns are places of the table, and
/// none comes twice.
pub proof fn lemma_concerned(v: PolarisView, s: SessionView)
    ensures
        forall|k: int|
            0 <= k < concerned(v, s).len() ==> 0 <= #[trigger] concerned(v, s)[k] < v.blocks.len(),
        concerned(v, s).no_duplicates(),
        concerned(v, s).len() <= v.blocks.len(),
{
    let own = own_places(v.blocks, s.session_id, v.blocks.len() as int);
    lemma_own_places(v.blocks, s.session_id, v.blocks.len() as int);
    lemma_places_with_listed(v.blocks, own, s.block_ids);
    let all = concerned(v, s);
    lemma_distinct_below(all, v.blocks.len() as int);
}

/// Distinct numbers below `n` are at most `n`.
proof fn lemma_distinct_below(s: Seq<int>, n: int)
    requires
        0 <= n,
        s.no_duplicates(),
        forall|k: int| 0 <= k < s.len() ==> 0 <= #[trigger] s[k] < n,
    ensures
        s.len() <= n,
{
    s.unique_seq_to_set();
    let all = vstd::set_lib::set_int_range(0, n);
    vstd::set_lib::lemma_int_range(0, n);
    assert(s.to_set().subset_of(all));
    vstd::set_lib::lemma_len_subset(s.to_set(), all);
}

/// Letting go of a block changes no other block, no session, and adds at most
/// one decision.
pub proof fn lemma_letting_go(v: PolarisView, s: SessionView, i: int)
    requires
        0 <= i < v.blocks.len(),
    ensures
        ({
            let w = letting_go(v, s, i);
            &&& w.blocks.len() == v.blocks.len()
            &&& forall|j: int| 0 <= j < v.blocks.len() && j != i ==> #[trigger] w.blocks[j] == v.blocks[j]
            &&& w.blocks[i].block_id == v.blocks[i].block_id
            &&& w.sessions == v.sessions
            &&& w.daemon_attached == v.daemon_attached
            &&& v.next_decision_id < u64::MAX ==> v.next_decision_id <= w.next_decision_id
                <= v.next_decision_id + 1
        }),
{
}

/// Letting go of distinct blocks leaves the others as they were, and each of
/// them as letting go of it alone would.
pub proof fn lemma_letting_go_of_all(v: PolarisView, s: SessionView, places: Seq<int>)
    requires
        forall|k: int| 0 <= k < places.len() ==> 0 <= #[trigger] places[k] < v.blocks.len(),
        places.no_duplicates(),
        v.next_decision_id + places.len() <= u64::MAX,
    ensures
        ({
            let w = letting_go_of_all(v, s, places);
            &&& w.blocks.len() == v.blocks.len()
            &&& forall|j: int|
                0 <= j < v.blocks.len() && !places.contains(j) ==> #[trigger] w.blocks[j]
                    == v.blocks[j]
            &&& forall|j: int|
                0 <= j < v.blocks.len() ==> (#[trigger] w.blocks[j]).block_id == v.blocks[j].block_id
            &&& w.sessions == v.sessions
            &&& w.daemon_attached == v.daemon_attached
            &&& v.next_decision_id <= w.next_decision_id <= v.next_decision_id + places.len()
        }),
    decreases places.len(),
{
    if places.len() > 0 {
        let init = places.drop_last();
        assert(init.no_duplicates());
        assert forall|k: int| 0 <= k < init.len() implies 0 <= #[trigger] init[k] < v.blocks.len() by {
            assert(init[k] == places[k]);
        }
        lemma_letting_go_of_all(v, s, init);
        let before = letting_go_of_all(v, s, init);
        assert(places.last() == places[places.len() - 1]);
        lemma_letting_go(before, s, places.last());
        assert forall|j: int| 0 <= j < v.blocks.len() && !places.contains(j) implies (
        #[trigger] letting_go_of_all(v, s, places).blocks[j]) == v.blocks[j] by {
            assert(places.contains(places[places.len() - 1]));
            if init.contains(j) {
                let k = choose|k: int| 0 <= k < init.len() && init[k] == j;
                assert(places[k] == j);
            }
        }
    }
}

/// Filtering sessions and taking their values commute.
proof fn lemma_session_views_filter(
    s: Seq<PolarisSession>,
    p: spec_fn(PolarisSession) -> bool,
    q: spec_fn(SessionView) -> bool,
)
    requires
        forall|x: PolarisSession| #[trigger] p(x) == q(x@),
    ensures
        session_views(s.filter(p)) == session_views(s).filter(q),
    decreases s.len(),
{
    reveal(Seq::filter);
    if s.len() > 0 {
        lemma_session_views_filter(s.drop_last(), p, q);
        assert(session_views(s).drop_last() =~= session_views(s.drop_last()));
        assert(session_views(s).last() == s.last()@);
        assert(p(s.last()) == q(s.last()@));
        if p(s.last()) {
            assert(session_views(s.drop_last().filter(p).push(s.last())) =~= session_views(
                s.drop_last().filter(p),
            ).push(s.last()@));
        }
    } else {
        assert(session_views(s) =~= Seq::empty());
        assert(session_views(s).filter(q) =~= Seq::empty());
        assert(s.filter(p) =~= s);
    }
}

// ─── Handling ───────────────────────────────────────────────────────────────

/// Whether a table of blocks holds one with the id.
pub fn has_block(blocks: &Vec<PolarisBlock>, id: u64) -> (r: bool)
    ensures
        r == any(blocks@, block_is(id)),
{
    let mut i: usize = 0;
    while i < blocks.len()
        invariant
            0 <= i <= blocks@.len(),
            forall|k: int| 0 <= k < i ==> !block_is(id)(#[trigger] blocks@[k]),
        decreases blocks@.len() - i,
    {
        if blocks[i].block_id == id {
            assert(block_is(id)(blocks@[i as int]));
            return true;
        }
        i += 1;
    }
    false
}

/// Whether an id is in a list.
fn has_id(ids: &Vec<u64>, id: u64) -> (r: bool)
    ensures
        r == ids@.contains(id),
{
    crate::policy::contains_id(ids, id)
}

/// What a query for a session is answered.
pub open spec fn session_told(v: PolarisView, arg: PolarisSessionGetStatsArg) -> Result<
    PolarisSessionGetStatsArg,
    i32,
> {
    match v.find_session(arg.session_id) {
        None => Err(ENOENT),
        Some(i) => {
            let s = v.sessions[i];
            Ok(
                PolarisSessionGetStatsArg {
                    home_gpu: s.home_gpu,
                    beam_width: s.beam_width,
                    num_blocks: s.block_ids.len() as u32,
                    total_bytes: s.gpu_vas_size,
                    ..arg
                },
            )
        },
    }
}

/// What a query for the sessions is answered: the first of them, as many as there is
/// room for.
pub open spec fn sessions_told(
    v: PolarisView,
    arg: PolarisListSessionsArg,
    r: PolarisListSessionsArg,
) -> bool {
    &&& r.count == (if v.sessions.len() <= POLARIS_MAX_SESSIONS_PER_LIST {
        v.sessions.len() as int
    } else {
        POLARIS_MAX_SESSIONS_PER_LIST as int
    })
    &&& r._reserved == arg._reserved
    &&& forall|i: int|
        0 <= i < r.count ==> #[trigger] r.session_ids@[i] == v.sessions[i].session_id
    &&& forall|i: int|
        r.count <= i < POLARIS_MAX_SESSIONS_PER_LIST ==> #[trigger] r.session_ids@[i]
            == arg.session_ids@[i]
}

impl PolarisInner {
    /// Take `bytes` of addresses from the range of GPU `g`.
    fn take_va(&mut self, g: usize, bytes: u64) -> (r: Option<u64>)
        requires
            g < old(self)@.gpus.len(),
            old(self)@.gpus[g as int].va_range_registered,
            va_fits(old(self)@.gpus[g as int], bytes),
        ensures
            (r, final(self)@) == taking_va(old(self)@, g as int, bytes),
    {
        let gpu = self.gpus[g];
        let aligned: u64 = align_va(bytes);
        if gpu.next_va_offset + aligned > gpu.va_range_length {
            return None;
        }
        let base: u64 = gpu.va_range_base + gpu.next_va_offset;
        self.gpus[g].next_va_offset = gpu.next_va_offset + aligned;
        Some(base)
    }

    /// Open a session.
    pub fn session_create(&mut self, arg: PolarisSessionCreateArg) -> (r: Result<
        PolarisSessionCreateArg,
        i32,
    >)
        requires
            create_fits(old(self)@, arg),
        ensures
            (r, final(self)@) == creating(old(self)@, arg),
    {
        let (base, size): (u64, u64) = match self.find_gpu(arg.home_gpu) {
            Some(g) => {
                if !self.gpus[g].healthy {
                    return Err(ENODEV);
                }
                if self.gpus[g].va_range_registered {
                    let session_va: u64 = if arg.gpu_vas_bytes > 0 {
                        arg.gpu_vas_bytes
                    } else {
                        POLARIS_DEFAULT_SESSION_VA_BYTES
                    };
                    match self.take_va(g, session_va) {
                        Some(base) => (base, session_va),
                        None => {
                            return Err(ENOMEM);
                        },
                    }
                } else {
                    (0, arg.gpu_vas_bytes)
                }
            },
            None => (0, arg.gpu_vas_bytes),
        };
        let session_id: u64 = self.next_session_id;
        self.next_session_id = session_id + 1;
        let bytes_per_token: u64 = if arg.bytes_per_token > 0 {
            arg.bytes_per_token
        } else {
            POLARIS_DEFAULT_BYTES_PER_TOKEN
        };
        let priority: u32 = if arg.priority > 0 {
            arg.priority
        } else {
            5
        };
        let ghost sessions = self@.sessions;
        let session = PolarisSession {
            session_id,
            home_gpu: arg.home_gpu,
            gpu_vas_base: base,
            gpu_vas_size: size,
            beam_width: arg.beam_width,
            bytes_per_token,
            parent_session_id: 0,
            priority,
            active_read_start_token: 0,
            active_read_token_count: 0,
            active_write_start_token: 0,
            active_write_token_count: 0,
            block_ids: Vec::new(),
        };
        let ghost entered = session@;
        self.sessions.push(session);
        assert(entered.block_ids =~= Seq::empty());
        assert(self@.sessions =~= sessions.push(entered));
        assert(entered =~= fresh_session(session_id, arg, base, size));
        Ok(PolarisSessionCreateArg { session_id, ..arg })
    }

    /// Open a session that shares the blocks of another.
    pub fn session_branch(&mut self, arg: PolarisSessionBranchArg) -> (r: Result<
        PolarisSessionBranchArg,
        i32,
    >)
        requires
            branch_fits(old(self)@, arg),
        ensures
            (r, final(self)@) == branching(old(self)@, arg),
    {
        let ghost v = self@;
        let p: usize = match self.find_session(arg.parent_session_id) {
            Some(p) => p,
            None => {
                return Err(ENOENT);
            },
        };
        let ghost parent = v.sessions[p as int];
        assert(parent == self.sessions@[p as int]@);
        let parent_gpu: u32 = self.sessions[p].home_gpu;
        let parent_vas_base: u64 = self.sessions[p].gpu_vas_base;
        let parent_vas_size: u64 = self.sessions[p].gpu_vas_size;
        let beam_width: u32 = self.sessions[p].beam_width;
        let bytes_per_token: u64 = self.sessions[p].bytes_per_token;
        let priority: u32 = self.sessions[p].priority;
        let g = self.find_gpu(parent_gpu);
        if let Some(g) = g {
            if !self.gpus[g].healthy {
                return Err(ENODEV);
            }
        }
        let mut ids: Vec<u64> = Vec::new();
        let mut k: usize = 0;
        while k < self.sessions[p as usize].block_ids.len()
            invariant
                p < self.sessions@.len(),
                0 <= k <= parent.block_ids.len(),
                parent == v.sessions[p as int],
                self.sessions@[p as int].block_ids@ == parent.block_ids,
                ids@ == parent.block_ids.take(k as int),
                self@ == (PolarisView {
                    blocks: shared_once_more(v.blocks, parent.block_ids.take(k as int)),
                    ..v
                }),
                forall|i: int|
                    0 <= i < v.blocks.len() ==> (#[trigger] v.blocks[i]).refcount
                        + parent.block_ids.len() <= u64::MAX,
            decreases parent.block_ids.len() - k,
        {
            let id: u64 = self.sessions[p].block_ids[k];
            let ghost upto = parent.block_ids.take(k as int + 1);
            proof {
                assert(upto.drop_last() =~= parent.block_ids.take(k as int));
                assert(upto.last() == id);
                lemma_shared_once_more(v.blocks, parent.block_ids.take(k as int));
            }
            if let Some(i) = self.find_block(id) {
                assert(self.blocks@[i as int].refcount <= v.blocks[i as int].refcount + k);
                self.blocks[i].refcount = self.blocks[i].refcount + 1;
                self.blocks[i].flags = PolarisBlockFlags { shared: true };
            }
            ids.push(id);
            assert(ids@ =~= upto);
            k += 1;
        }
        assert(parent.block_ids.take(k as int) =~= parent.block_ids);
        let child_id: u64 = self.next_session_id;
        self.next_session_id = child_id + 1;
        let mut base: u64 = parent_vas_base;
        if let Some(g) = g {
            if self.gpus[g].va_range_registered {
                match self.take_va(g, parent_vas_size) {
                    Some(b) => {
                        base = b;
                    },
                    None => {
                        return Err(ENOMEM);
                    },
                }
            }
        }
        let ghost sessions = self@.sessions;
        let session = PolarisSession {
            session_id: child_id,
            home_gpu: parent_gpu,
            gpu_vas_base: base,
            gpu_vas_size: parent_vas_size,
            beam_width,
            bytes_per_token,
            parent_session_id: arg.parent_session_id,
            priority,
            active_read_start_token: 0,
            active_read_token_count: 0,
            active_write_start_token: 0,
            active_write_token_count: 0,
            block_ids: ids,
        };
        let ghost entered = session@;
        self.sessions.push(session);
        assert(self@.sessions =~= sessions.push(entered));
        assert(entered.block_ids =~= parent.block_ids);
        Ok(PolarisSessionBranchArg { child_session_id: child_id, ..arg })
    }

    /// Where the blocks are that the end of session `s` concerns.
    fn concerned_places(&self, s: usize) -> (r: Vec<usize>)
        requires
            s < self@.sessions.len(),
        ensures
            as_ints(r@) == concerned(self@, self@.sessions[s as int]),
    {
        let sid: u64 = self.sessions[s].session_id;
        let ghost session = self@.sessions[s as int];
        let mut places: Vec<usize> = Vec::new();
        let mut i: usize = 0;
        assert(as_ints(places@) =~= Seq::empty());
        while i < self.blocks.len()
            invariant
                0 <= i <= self@.blocks.len(),
                as_ints(places@) == own_places(self@.blocks, sid, i as int),
            decreases self@.blocks.len() - i,
        {
            let ghost before = places@;
            if self.blocks[i].session_id == sid {
                places.push(i);
                assert(as_ints(places@) =~= as_ints(before).push(i as int));
            }
            i += 1;
        }
        let ghost own = as_ints(places@);
        proof {
            lemma_own_places(self@.blocks, sid, self@.blocks.len() as int);
        }
        let mut k: usize = 0;
        assert(session.block_ids.take(0) =~= Seq::empty());
        while k < self.sessions[s as usize].block_ids.len()
            invariant
                s < self.sessions@.len(),
                session == self@.sessions[s as int],
                session.block_ids == self.sessions@[s as int].block_ids@,
                0 <= k <= session.block_ids.len(),
                forall|j: int| 0 <= j < own.len() ==> 0 <= #[trigger] own[j] < self@.blocks.len(),
                own.no_duplicates(),
                as_ints(places@) == places_with_listed(
                    self@.blocks,
                    own,
                    session.block_ids.take(k as int),
                ),
            decreases session.block_ids.len() - k,
        {
            let id: u64 = self.sessions[s].block_ids[k];
            let ghost before = places@;
            let ghost upto = session.block_ids.take(k as int + 1);
            proof {
                assert(upto.drop_last() =~= session.block_ids.take(k as int));
                assert(upto.last() == id);
                lemma_places_with_listed(self@.blocks, own, session.block_ids.take(k as int));
            }
            if !self.is_placed(&places, id) {
                if let Some(i) = self.find_block(id) {
                    places.push(i);
                    assert(as_ints(places@) =~= as_ints(before).push(i as int));
                }
            }
            k += 1;
        }
        assert(session.block_ids.take(k as int) =~= session.block_ids);
        places
    }

    /// Whether a block with the id is at one of the places.
    fn is_placed(&self, places: &Vec<usize>, id: u64) -> (r: bool)
        requires
            forall|k: int|
                0 <= k < as_ints(places@).len() ==> 0 <= #[trigger] as_ints(places@)[k]
                    < self@.blocks.len(),
        ensures
            r == placed(self@.blocks, as_ints(places@), id),
    {
        let mut k: usize = 0;
        while k < places.len()
            invariant
                0 <= k <= places@.len(),
                forall|j: int|
                    0 <= j < as_ints(places@).len() ==> 0 <= #[trigger] as_ints(places@)[j]
                        < self@.blocks.len(),
                forall|j: int|
                    0 <= j < k ==> self@.blocks[#[trigger] as_ints(places@)[j]].block_id != id,
            decreases places@.len() - k,
        {
            assert(as_ints(places@)[k as int] == places@[k as int]);
            if self.blocks[places[k]].block_id == id {
                return true;
            }
            k += 1;
        }
        false
    }

    /// Let go of block `i` at the end of a session.
    fn let_go(&mut self, i: usize, home_gpu: u32, va_base: u64, va_end: u64, Ghost(s): Ghost<SessionView>)
        requires
            i < old(self)@.blocks.len(),
            old(self)@.next_decision_id < u64::MAX,
            home_gpu == s.home_gpu,
            va_base == s.gpu_vas_base,
            va_end == sat_add(s.gpu_vas_base, s.gpu_vas_size),
        ensures
            final(self)@ == letting_go(old(self)@, s, i as int),
    {
        let block = self.blocks[i];
        let block_id: u64 = block.block_id;
        if block.refcount > 1 {
            let mut b = block;
            b.drop_reference();
            self.blocks[i] = b;
            retain(
                &mut self.block_mappings,
                |m: &PolarisBlockMapping| -> (r: bool)
                    ensures
                        r == mapping_outside(block_id, home_gpu, va_base, va_end)(*m)
                    {
                        !(m.block_id == block_id && m.gpu_id == home_gpu && m.base < va_end
                            && m.base.saturating_add(m.length) > va_base)
                    },
                Ghost(mapping_outside(block_id, home_gpu, va_base, va_end)),
            );
            return ;
        }
        if block.state == PolarisBlockState::FreePending {
            return ;
        }
        if self.daemon_attached > 0 && block.needs_free_decision() {
            let _ = self.queue_free_decision(i);
        } else {
            self.account_direct_block_removal(block);
            self.blocks[i].refcount = 0;
        }
        self.forget_static_blocks_for_block(block_id);
        self.drop_mappings_of(block_id);
    }

    /// Close a session and let go of its blocks. Where the queue has no room for
    /// all the memory to be given back, nothing is done.
    pub fn session_destroy(&mut self, arg: PolarisSessionDestroyArg) -> (r: Result<(), i32>)
        requires
            old(self)@.next_decision_id + old(self)@.blocks.len() <= u64::MAX,
        ensures
            (r, final(self)@) == destroying(old(self)@, arg),
    {
        let ghost v = self@;
        let sid: u64 = arg.session_id;
        let k: usize = match self.find_session(sid) {
            Some(k) => k,
            None => {
                return Err(ENOENT);
            },
        };
        let ghost s = v.sessions[k as int];
        assert(s == self.sessions@[k as int]@);
        assert(s.session_id == sid);
        let home_gpu: u32 = self.sessions[k].home_gpu;
        let va_base: u64 = self.sessions[k].gpu_vas_base;
        let va_end: u64 = va_base.saturating_add(self.sessions[k].gpu_vas_size);
        let places = self.concerned_places(k);
        let ghost all = as_ints(places@);
        proof {
            lemma_concerned(v, s);
            assert(forall|j: int| 0 <= j < places@.len() ==> all[j] == #[trigger] places@[j]);
        }
        let mut needed: usize = 0;
        let mut j: usize = 0;
        assert(all.take(0) =~= Seq::empty());
        while j < places.len()
            invariant
                0 <= j <= places@.len(),
                needed <= j,
                self@ == v,
                all == as_ints(places@),
                forall|q: int| 0 <= q < all.len() ==> 0 <= #[trigger] all[q] < v.blocks.len(),
                needed == asking_count(v.blocks, all.take(j as int)),
            decreases places@.len() - j,
        {
            assert(all[j as int] == places@[j as int]);
            assert(all.take(j as int + 1).drop_last() =~= all.take(j as int));
            let block = &self.blocks[places[j]];
            if block.refcount <= 1 && block.needs_free_decision() {
                needed += 1;
            }
            j += 1;
        }
        assert(all.take(j as int) =~= all);
        if self.daemon_attached > 0 && self.pending_decisions.len().saturating_add(needed)
            > POLARIS_MAX_PENDING_DECISIONS {
            return Err(ENOMEM);
        }
        let mut doomed: Vec<u64> = Vec::new();
        let mut n: usize = 0;
        assert(all.take(0) =~= Seq::empty());
        while n < places.len()
            invariant
                0 <= n <= places@.len(),
                all == as_ints(places@),
                forall|q: int| 0 <= q < all.len() ==> 0 <= #[trigger] all[q] < v.blocks.len(),
                all.no_duplicates(),
                all.len() <= v.blocks.len(),
                v.next_decision_id + v.blocks.len() <= u64::MAX,
                home_gpu == s.home_gpu,
                va_base == s.gpu_vas_base,
                va_end == sat_add(s.gpu_vas_base, s.gpu_vas_size),
                self@ == letting_go_of_all(v, s, all.take(n as int)),
                doomed@.len() == n,
                forall|q: int|
                    0 <= q < n ==> #[trigger] doomed@[q] == v.blocks[all[q]].block_id,
            decreases places@.len() - n,
        {
            let i: usize = places[n];
            proof {
                assert(all[n as int] == i);
                assert(all.take(n as int + 1).drop_last() =~= all.take(n as int));
                assert(all.take(n as int).no_duplicates());
                assert forall|q: int| 0 <= q < n implies 0 <= #[trigger] all.take(n as int)[q]
                    < v.blocks.len() by {
                    assert(all.take(n as int)[q] == all[q]);
                }
                lemma_letting_go_of_all(v, s, all.take(n as int));
            }
            doomed.push(self.blocks[i].block_id);
            self.let_go(i, home_gpu, va_base, va_end, Ghost(s));
            n += 1;
        }
        assert(all.take(n as int) =~= all);
        proof {
            lemma_letting_go_of_all(v, s, all);
            assert forall|id: u64| #[trigger] doomed@.contains(id) == placed(v.blocks, all, id) by {
                if doomed@.contains(id) {
                    let q = choose|q: int| 0 <= q < doomed@.len() && doomed@[q] == id;
                    assert(v.blocks[all[q]].block_id == id);
                }
                if placed(v.blocks, all, id) {
                    let q = choose|q: int| 0 <= q < all.len() && v.blocks[#[trigger] all[q]].block_id == id;
                    assert(doomed@[q] == id);
                }
            }
        }
        let ghost w = self@;
        let ghost keep = |x: PolarisSession| x.session_id != sid;
        let ghost kept_sessions = self.sessions@;
        retain(
            &mut self.sessions,
            |x: &PolarisSession| -> (r: bool)
                ensures
                    r == (x.session_id != sid)
                { x.session_id != sid },
            Ghost(keep),
        );
        proof {
            lemma_session_views_filter(kept_sessions, keep, session_is_not(sid));
        }
        let ghost staying = stays(v.blocks, all);
        retain(
            &mut self.blocks,
            |b: &PolarisBlock| -> (r: bool)
                ensures
                    r == staying(*b)
                {
                    b.state == PolarisBlockState::FreePending || b.refcount != 0 || !has_id(
                        &doomed,
                        b.block_id,
                    )
                },
            Ghost(staying),
        );
        let blocks = &self.blocks;
        retain(
            &mut self.block_mappings,
            |m: &PolarisBlockMapping| -> (r: bool)
                ensures
                    r == maps_one_of(blocks@)(*m)
                { has_block(blocks, m.block_id) },
            Ghost(maps_one_of(blocks@)),
        );
        assert(self@ =~= ended(v, s));
        Ok(())
    }

    /// Say what a session holds. The count of blocks is given modulo 2^32.
    pub fn session_get_stats(&self, arg: PolarisSessionGetStatsArg) -> (r: Result<
        PolarisSessionGetStatsArg,
        i32,
    >)
        ensures
            r == session_told(self@, arg),
    {
        match self.find_session(arg.session_id) {
            Some(i) => {
                let s = &self.sessions[i];
                assert(s@ == self@.sessions[i as int]);
                Ok(
                    PolarisSessionGetStatsArg {
                        home_gpu: s.home_gpu,
                        beam_width: s.beam_width,
                        num_blocks: s.block_ids.len() as u32,
                        total_bytes: s.gpu_vas_size,
                        ..arg
                    },
                )
            },
            None => Err(ENOENT),
        }
    }

    /// List the open sessions, at most sixty-four, in the order they were opened.
    pub fn list_sessions(&self, arg: PolarisListSessionsArg) -> (r: PolarisListSessionsArg)
        ensures
            sessions_told(self@, arg, r),
    {
        let mut out = arg;
        let count: usize = if self.sessions.len() <= POLARIS_MAX_SESSIONS_PER_LIST {
            self.sessions.len()
        } else {
            POLARIS_MAX_SESSIONS_PER_LIST
        };
        out.count = count as u32;
        let mut i: usize = 0;
        while i < count
            invariant
                0 <= i <= count <= 64,
                count <= self@.sessions.len(),
                out.count == count,
                out._reserved == arg._reserved,
                forall|k: int|
                    0 <= k < i ==> #[trigger] out.session_ids@[k] == self@.sessions[k].session_id,
                forall|k: int| i <= k < 64 ==> #[trigger] out.session_ids@[k] == arg.session_ids@[k],
            decreases count - i,
        {
            assert(self.sessions@[i as int]@ == self@.sessions[i as int]);
            out.session_ids[i] = self.sessions[i].session_id;
            i += 1;
        }
        out
    }
}

} // verus!
