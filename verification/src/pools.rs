//! Addresses out of the pool: whoever holds some holds them alone, and none of
//! them is free.

use crate::abi::{PolarisDecision, PolarisDecisionOp};
use crate::cpu_pool::{law_free_buffers_stay_separated, CpuView, PAGE};
use crate::dispatch::{
    allocating_block, copies_memory, destination, dispatch_fits, dispatching, memory_noted,
    resuming, rm_cow_breaking, rm_cow_copied, rm_cow_memory, run_fits,
};
use crate::executor::{Fill, Reply};
use crate::gpu::{GpuView, VaAlloc};
use crate::kv::{
    allocating_kv, freeing_all, kv_block_size, kv_fits, kv_going_on, kv_run_fits, or_error,
    releasing_kv, unmapping_all, KvError, KvRun, KvView, RuntimeView,
};
use crate::num::{greatest, sat_sub};
use crate::offload::{with_block_up, RmCow, Run, Step};
use crate::ranges::{
    can_give, clear_of, covers, end_of, lemma_given, lemma_given_clear, lemma_removing,
    law_free_ranges_stay_separated, lemma_snapped, lemma_taking, separated, snap_fits, snapped,
    taking,
};
use crate::rm::{allocation_of, RmAllocation, RmView};
use crate::runtime::{decision_fits, dispatching_decision, going_on, step_fits};
use vstd::prelude::*;

verus! {

/// A block holds addresses out of the pool.
pub open spec fn holds_addresses(g: GpuView, b: u64) -> bool {
    g.vas.contains_key(b) && g.vas[b].from_pool
}

/// The addresses of a block.
pub open spec fn stretch(va: VaAlloc) -> (u64, u64) {
    (va.vaddr, va.size)
}

/// Two stretches of addresses have none in common.
pub open spec fn disjoint(a: (u64, u64), b: (u64, u64)) -> bool {
    a.0 + a.1 <= b.0 || b.0 + b.1 <= a.0
}

/// There are addresses in the stretch, and none is free.
pub open spec fn taken(g: GpuView, a: (u64, u64)) -> bool {
    a.1 > 0 && can_give(g.free, a.0, a.1)
}

/// A stretch is taken, and neither a block nor any of the others holds a part of
/// it.
#[verifier::opaque]
pub open spec fn alone(g: GpuView, others: Set<(u64, u64)>, a: (u64, u64)) -> bool {
    &&& taken(g, a)
    &&& forall|b: u64| #[trigger] holds_addresses(g, b) ==> disjoint(stretch(g.vas[b]), a)
    &&& forall|x: (u64, u64)| #[trigger] others.contains(x) ==> disjoint(x, a)
}

/// What blocks hold out of the pool, and what the others hold, is taken and has
/// nothing in common; what is free is in ranges with room between them.
#[verifier::opaque]
pub open spec fn apart(g: GpuView, others: Set<(u64, u64)>) -> bool {
    &&& separated(g.free)
    &&& forall|b: u64| #[trigger] holds_addresses(g, b) ==> taken(g, stretch(g.vas[b]))
    &&& forall|x: (u64, u64)| #[trigger] others.contains(x) ==> taken(g, x)
    &&& forall|a: u64, b: u64| #[trigger]
        holds_addresses(g, a) && #[trigger] holds_addresses(g, b) && a != b ==> disjoint(
            stretch(g.vas[a]),
            stretch(g.vas[b]),
        )
    &&& forall|b: u64, x: (u64, u64)| #[trigger]
        holds_addresses(g, b) && #[trigger] others.contains(x) ==> disjoint(
            stretch(g.vas[b]),
            x,
        )
    &&& forall|x: (u64, u64), y: (u64, u64)| #[trigger]
        others.contains(x) && #[trigger] others.contains(y) && x != y ==> disjoint(x, y)
}

/// Addresses that a run has taken and not noted for a block yet.
pub open spec fn in_flight(run: Run) -> Option<(u64, u64)> {
    match run {
        Run::Bring { bring, release, .. } => if release {
            Some((bring.vaddr, bring.size))
        } else {
            None
        },
        Run::AllocMemory { vaddr, size, release, .. } => if release {
            Some((vaddr, size))
        } else {
            None
        },
        Run::RmCowMemory { cow } => if cow.release {
            Some((cow.vaddr, cow.size))
        } else {
            None
        },
        Run::RmCowOut { cow, .. } => if cow.release {
            Some((cow.vaddr, cow.size))
        } else {
            None
        },
        Run::RmCowIn { cow, .. } => if cow.release {
            Some((cow.vaddr, cow.size))
        } else {
            None
        },
        _ => None,
    }
}

/// Everything is apart, with what a step is about.
pub open spec fn step_apart(step: Step, g: GpuView, others: Set<(u64, u64)>) -> bool {
    &&& apart(g, others)
    &&& step matches Step::Ask { run, .. } ==> (in_flight(run) matches Some(a) ==> alone(
        g,
        others,
        a,
    ))
}

// ─── Free lists ─────────────────────────────────────────────────────────────

/// What is not free has nothing in common with what is taken out of the free
/// list.
proof fn lemma_taken_apart(g: GpuView, size: u64, align: u64, a: (u64, u64))
    requires
        g.wf(),
        taken(g, a),
        size > 0,
    ensures
        taking(g.free, size, align) matches (Some(start), _) ==> disjoint(a, (start, size)),
{
    lemma_taking(g.free, size, align);
    if let (Some(start), left) = taking(g.free, size, align) {
        if !disjoint(a, (start, size)) {
            let m: int = if a.0 > start {
                a.0 as int
            } else {
                start as int
            };
            assert(start <= m < start + size);
            assert(covers(g.free, m));
            let i = choose|i: int|
                0 <= i < g.free.len() && (#[trigger] g.free[i]).0 <= m < end_of(g.free[i]);
            assert(clear_of(g.free, a.0 as int, a.1 as int));
        }
    }
}

/// Addresses are taken out of the pool.
proof fn lemma_take(g: GpuView, others: Set<(u64, u64)>, size: u64, align: u64)
    requires
        g.wf(),
        apart(g, others),
        size > 0,
        taking(g.free, size, align).0 is Some,
    ensures
        ({
            let (start, left) = taking(g.free, size, align);
            let h = GpuView { free: left, ..g };
            h.wf() && apart(h, others) && alone(h, others, (start->0, size))
        }),
{
    reveal(apart);
    reveal(alone);
    lemma_taking(g.free, size, align);
    law_free_ranges_stay_separated(g.free, size, align, 0);
    let (start, left) = taking(g.free, size, align);
    let h = GpuView { free: left, ..g };
    assert forall|b: u64| #[trigger] holds_addresses(h, b) implies taken(h, stretch(h.vas[b]))
        && disjoint(stretch(h.vas[b]), (start->0, size)) by {
        assert(holds_addresses(g, b));
        let a = stretch(g.vas[b]);
        lemma_taken_apart(g, size, align, a);
        assert(clear_of(g.free, a.0 as int, a.1 as int));
    }
    assert forall|x: (u64, u64)| #[trigger] others.contains(x) implies taken(h, x) && disjoint(
        x,
        (start->0, size),
    ) by {
        lemma_taken_apart(g, size, align, x);
        assert(clear_of(g.free, x.0 as int, x.1 as int));
    }
    assert forall|a: u64, b: u64| #[trigger]
        holds_addresses(h, a) && #[trigger] holds_addresses(h, b) && a != b implies disjoint(
        stretch(h.vas[a]),
        stretch(h.vas[b]),
    ) by {
        assert(holds_addresses(g, a) && holds_addresses(g, b));
    }
    assert forall|b: u64, x: (u64, u64)| #[trigger]
        holds_addresses(h, b) && #[trigger] others.contains(x) implies disjoint(
        stretch(h.vas[b]),
        x,
    ) by {
        assert(holds_addresses(g, b));
    }
}

/// Addresses that nobody else holds go back to the pool.
proof fn lemma_give(g: GpuView, others: Set<(u64, u64)>, a: (u64, u64))
    requires
        g.wf(),
        apart(g, others),
        alone(g, others, a),
    ensures
        g.with_given(a.0, a.1).wf(),
        apart(g.with_given(a.0, a.1), others),
{
    reveal(apart);
    reveal(alone);
    let h = g.with_given(a.0, a.1);
    lemma_given(g.free, a.0, a.1);
    law_free_ranges_stay_separated(g.free, a.1, 1, a.0);
    assert forall|b: u64| #[trigger] holds_addresses(h, b) implies taken(h, stretch(h.vas[b])) by {
        assert(holds_addresses(g, b));
        let s = stretch(g.vas[b]);
        lemma_given_clear(g.free, a.0, a.1, s.0 as int, s.1 as int);
    }
    assert forall|x: (u64, u64)| #[trigger] others.contains(x) implies taken(h, x) by {
        lemma_given_clear(g.free, a.0, a.1, x.0 as int, x.1 as int);
    }
    assert forall|c: u64, b: u64| #[trigger]
        holds_addresses(h, c) && #[trigger] holds_addresses(h, b) && c != b implies disjoint(
        stretch(h.vas[c]),
        stretch(h.vas[b]),
    ) by {
        assert(holds_addresses(g, c) && holds_addresses(g, b));
    }
    assert forall|b: u64, x: (u64, u64)| #[trigger]
        holds_addresses(h, b) && #[trigger] others.contains(x) implies disjoint(
        stretch(h.vas[b]),
        x,
    ) by {
        assert(holds_addresses(g, b));
    }
}

/// Addresses that nobody else holds are noted for a block, or addresses that did
/// not come out of the pool.
proof fn lemma_note(
    g: GpuView,
    others: Set<(u64, u64)>,
    block_id: u64,
    a: (u64, u64),
    from_pool: bool,
)
    requires
        g.wf(),
        apart(g, others),
        from_pool ==> alone(g, others, a),
    ensures
        g.with_va(block_id, a.0, a.1, from_pool).wf(),
        apart(g.with_va(block_id, a.0, a.1, from_pool), others),
{
    reveal(apart);
    reveal(alone);
    let h = g.with_va(block_id, a.0, a.1, from_pool);
    if !from_pool {
        lemma_removing(g.free, a.0, a.1);
        if a.1 > 0 {
            law_free_ranges_stay_separated(g.free, a.1, 1, a.0);
        }
    }
    assert forall|x: (u64, u64)| taken(g, x) implies #[trigger] taken(h, x) by {
        assert(clear_of(g.free, x.0 as int, x.1 as int));
    }
    assert forall|b: u64| #[trigger] holds_addresses(h, b) implies taken(h, stretch(h.vas[b])) by {
        if b != block_id {
            assert(holds_addresses(g, b));
        }
    }
    assert forall|c: u64, b: u64| #[trigger]
        holds_addresses(h, c) && #[trigger] holds_addresses(h, b) && c != b implies disjoint(
        stretch(h.vas[c]),
        stretch(h.vas[b]),
    ) by {
        if c != block_id {
            assert(holds_addresses(g, c));
        }
        if b != block_id {
            assert(holds_addresses(g, b));
        }
    }
    assert forall|b: u64, x: (u64, u64)| #[trigger]
        holds_addresses(h, b) && #[trigger] others.contains(x) implies disjoint(
        stretch(h.vas[b]),
        x,
    ) by {
        if b != block_id {
            assert(holds_addresses(g, b));
        }
    }
}

/// A block goes, and its addresses with it.
proof fn lemma_forget(g: GpuView, others: Set<(u64, u64)>, block_id: u64)
    requires
        g.wf(),
        apart(g, others),
    ensures
        g.without_block(block_id).wf(),
        apart(g.without_block(block_id), others),
{
    reveal(apart);
    reveal(alone);
    let without = GpuView {
        handles: g.handles.remove(block_id),
        vas: g.vas.remove(block_id),
        ..g
    };
    assert forall|b: u64| #[trigger] holds_addresses(without, b) implies holds_addresses(g, b)
        && without.vas[b] == g.vas[b] && b != block_id by {}
    assert(apart(without, others));
    if holds_addresses(g, block_id) {
        let a = stretch(g.vas[block_id]);
        assert(alone(without, others, a));
        lemma_give(without, others, a);
    }
}

/// Only what a GPU counts or what it has handles for differs.
proof fn lemma_same_addresses(g: GpuView, h: GpuView, others: Set<(u64, u64)>)
    requires
        apart(g, others),
        h.free == g.free,
        h.vas == g.vas,
    ensures
        apart(h, others),
        forall|a: (u64, u64)| #[trigger] alone(g, others, a) ==> alone(h, others, a),
{
    reveal(apart);
    reveal(alone);
    assert forall|b: u64| #[trigger] holds_addresses(h, b) == holds_addresses(g, b) by {}
    assert forall|a: (u64, u64)| #[trigger] taken(h, a) == taken(g, a) by {}
}

/// Addresses are found for a block.
proof fn lemma_destination(
    g: GpuView,
    others: Set<(u64, u64)>,
    dec: PolarisDecision,
    size: u64,
)
    requires
        g.wf(),
        apart(g, others),
        size > 0,
    ensures
        ({
            let (dst, h) = destination(g, dec, size);
            &&& h.wf()
            &&& apart(h, others)
            &&& dst matches Some(d) ==> (d.release_to_pool ==> alone(h, others, (d.vaddr, size)))
        }),
{
    if dec.dst_vaddr == 0 && g.va_of(dec.block_id) is None {
        let align = greatest(g.granule, 1);
        lemma_taking(g.free, size, align);
        if taking(g.free, size, align).0 is Some {
            lemma_take(g, others, size, align);
        }
    }
}

// ─── Laws ───────────────────────────────────────────────────────────────────

/// In a new pool nobody holds anything, and everything is free.
pub proof fn law_new_pool_is_apart(g: GpuView, base: u64, size: u64)
    requires
        g.vas == Map::<u64, VaAlloc>::empty(),
        g.free == seq![(base, size)],
        base + size <= u64::MAX,
    ensures
        apart(g, Set::empty()),
{
    reveal(apart);
}

/// While everything is apart, there is room between any two free ranges: ranges
/// that touch were joined.
pub proof fn law_free_addresses_are_joined(g: GpuView, others: Set<(u64, u64)>)
    requires
        apart(g, others),
    ensures
        separated(g.free),
{
    reveal(apart);
}

/// While everything is apart, any block can go.
pub proof fn law_any_block_can_go(g: GpuView, others: Set<(u64, u64)>, block_id: u64)
    requires
        apart(g, others),
    ensures
        g.can_remove(block_id),
{
    reveal(apart);
    assert(holds_addresses(g, block_id) ==> taken(g, stretch(g.vas[block_id])));
}

/// A private copy is to stand at another address than its block is known at. The
/// daemon gives the block's addresses back before the copy is made, while the
/// block still names them.
pub open spec fn moves_a_block(g: GpuView, rm: Option<RmView>, dec: PolarisDecision) -> bool {
    dec.op == PolarisDecisionOp::CowBreak.code() && !copies_memory(rm, dec) && dec.dst_vaddr != 0
        && (g.va_of(dec.block_id) matches Some(va) && va.vaddr != dec.dst_vaddr)
}

/// Beginning a decision of the daemon keeps addresses apart.
pub proof fn law_begun_decision_keeps_addresses_apart(
    g: GpuView,
    cpu: CpuView,
    rm: Option<RmView>,
    dec: PolarisDecision,
    found: Option<u64>,
    others: Set<(u64, u64)>,
)
    requires
        apart(g, others),
        dispatch_fits(g, cpu, rm, dec),
        dec.size_bytes > 0,
        !moves_a_block(g, rm, dec),
    ensures
        ({
            let (step, h, c, r) = dispatching(g, cpu, rm, dec, found);
            step_apart(step, h, others)
        }),
{
    if dec.op == PolarisDecisionOp::Alloc.code() {
        lemma_allocation_begun(g, rm, dec, others);
    } else if dec.op == PolarisDecisionOp::Free.code() {
        let less = GpuView {
            used_bytes: sat_sub(g.used_bytes, g.va_size_of(dec.block_id)),
            ..g
        };
        lemma_same_addresses(g, less, others);
        lemma_forget(less, others, dec.block_id);
    } else if dec.op == PolarisDecisionOp::CowBreak.code() {
        if copies_memory(rm, dec) {
            lemma_copy_begun(g, cpu, rm->0, dec, others);
        } else {
            lemma_snapped(dec.size_bytes, g.granule);
            lemma_destination(g, others, dec, g.in_granules(dec.size_bytes));
        }
    }
}

/// An allocation is begun.
proof fn lemma_allocation_begun(
    g: GpuView,
    rm: Option<RmView>,
    dec: PolarisDecision,
    others: Set<(u64, u64)>,
)
    requires
        g.wf(),
        apart(g, others),
        snap_fits(dec.size_bytes, g.granule),
        dec.size_bytes > 0,
    ensures
        ({
            let (step, h) = allocating_block(g, rm, dec);
            step_apart(step, h, others)
        }),
{
    let size = g.in_granules(dec.size_bytes);
    lemma_snapped(dec.size_bytes, g.granule);
    lemma_destination(g, others, dec, size);
    if let (Some(d), h) = destination(g, dec, size) {
        lemma_memory_noted(h, others, dec.block_id, d.vaddr, size, d.release_to_pool);
        if d.release_to_pool {
            lemma_give(h, others, (d.vaddr, size));
        }
    }
}

/// A private copy in memory of the resource manager is begun.
proof fn lemma_copy_begun(
    g: GpuView,
    cpu: CpuView,
    rm: RmView,
    dec: PolarisDecision,
    others: Set<(u64, u64)>,
)
    requires
        g.wf(),
        apart(g, others),
        snap_fits(dec.size_bytes, g.granule),
        dec.size_bytes > 0,
    ensures
        ({
            let (step, h, c) = rm_cow_breaking(g, cpu, rm, dec);
            step_apart(step, h, others)
        }),
{
    let size = g.in_granules(dec.size_bytes);
    lemma_snapped(dec.size_bytes, g.granule);
    lemma_destination(g, others, dec, size);
    if let (Some(d), h) = destination(g, dec, size) {
        if d.release_to_pool {
            lemma_give(h, others, (d.vaddr, size));
        }
    }
}

/// Memory of the resource manager was asked for or given back.
proof fn lemma_memory_resumed(
    g: GpuView,
    cpu: CpuView,
    rm: Option<RmView>,
    run: Run,
    reply: Reply,
    others: Set<(u64, u64)>,
)
    requires
        apart(g, others),
        run_fits(g, cpu, rm, run),
        in_flight(run) matches Some(a) ==> alone(g, others, a),
        run is AllocMemory || run is FreeMemory || run is RmUndo,
    ensures
        ({
            let (step, h, c, r) = resuming(g, cpu, rm, run, reply);
            step_apart(step, h, others)
        }),
{
    lemma_run_going_on(g, run, others);
    match run {
        Run::FreeMemory { dec } => {
            let less = GpuView {
                used_bytes: sat_sub(g.used_bytes, g.va_size_of(dec.block_id)),
                ..g
            };
            lemma_same_addresses(g, less, others);
            lemma_forget(less, others, dec.block_id);
        },
        Run::AllocMemory { block_id, vaddr, size, release } => {
            lemma_memory_noted(g, others, block_id, vaddr, size, release);
        },
        _ => {},
    }
}

/// Memory of the resource manager was copied out or in.
proof fn lemma_move_resumed(
    g: GpuView,
    cpu: CpuView,
    rm: Option<RmView>,
    run: Run,
    reply: Reply,
    others: Set<(u64, u64)>,
)
    requires
        apart(g, others),
        run_fits(g, cpu, rm, run),
        in_flight(run) matches Some(a) ==> alone(g, others, a),
        run is RmOffloadCopy || run is RmOffloadFree || run is RmReloadMemory || run is RmReloadCopy,
    ensures
        ({
            let (step, h, c, r) = resuming(g, cpu, rm, run, reply);
            step_apart(step, h, others)
        }),
{
    match run {
        Run::RmOffloadCopy { block_id, size, .. } => {
            lemma_offload_done(g, block_id, size, others);
        },
        Run::RmOffloadFree { block_id, size, .. } => {
            lemma_offload_done(g, block_id, size, others);
        },
        Run::RmReloadCopy { block_id, size, .. } => {
            if let Some(va) = g.va_of(block_id) {
                lemma_note(g, others, block_id, stretch(va), false);
                let noted = g.with_va(block_id, va.vaddr, va.size, false);
                lemma_same_addresses(
                    noted,
                    GpuView { used_bytes: (noted.used_bytes + size) as u64, ..noted },
                    others,
                );
            } else {
                lemma_same_addresses(
                    g,
                    GpuView { used_bytes: (g.used_bytes + size) as u64, ..g },
                    others,
                );
            }
        },
        _ => {},
    }
}

/// Memory was found for a block, and its addresses are noted.
proof fn lemma_memory_noted(
    g: GpuView,
    others: Set<(u64, u64)>,
    block_id: u64,
    vaddr: u64,
    size: u64,
    release: bool,
)
    requires
        g.wf(),
        apart(g, others),
        release ==> alone(g, others, (vaddr, size)),
    ensures
        forall|rm: RmView, memory: RmAllocation|
            apart(
                (#[trigger] memory_noted(g, rm, block_id, vaddr, size, release, memory)).1,
                others,
            ),
{
    lemma_note(g, others, block_id, (vaddr, size), release);
    let noted = g.with_va(block_id, vaddr, size, release);
    lemma_same_addresses(
        noted,
        GpuView { used_bytes: (noted.used_bytes + size) as u64, ..noted },
        others,
    );
}

/// A private copy is made in memory of the resource manager.
proof fn lemma_copy_resumed(
    g: GpuView,
    cpu: CpuView,
    rm: RmView,
    cow: RmCow,
    memory: RmAllocation,
    reply: Reply,
    others: Set<(u64, u64)>,
)
    requires
        g.wf(),
        apart(g, others),
        cow.release ==> alone(g, others, (cow.vaddr, cow.size)),
    ensures
        ({
            let (step, h, c, r) = rm_cow_memory(g, cpu, rm, cow, reply);
            step_apart(step, h, others)
        }),
        forall|inward: bool|
            {
                let (step, h, c, r) = #[trigger] rm_cow_copied(
                    g,
                    cpu,
                    rm,
                    cow,
                    memory,
                    inward,
                    reply,
                );
                step_apart(step, h, others)
            },
{
    if cow.release {
        lemma_give(g, others, (cow.vaddr, cow.size));
    }
    lemma_memory_noted(g, others, cow.block_id, cow.vaddr, cow.size, cow.release);
}

/// Going on with a decision of the daemon keeps addresses apart.
pub proof fn law_resumed_decision_keeps_addresses_apart(
    g: GpuView,
    cpu: CpuView,
    rm: Option<RmView>,
    run: Run,
    reply: Reply,
    others: Set<(u64, u64)>,
)
    requires
        apart(g, others),
        run_fits(g, cpu, rm, run),
        in_flight(run) matches Some(a) ==> alone(g, others, a),
    ensures
        ({
            let (step, h, c, r) = resuming(g, cpu, rm, run, reply);
            step_apart(step, h, others)
        }),
{
    match run {
        Run::AllocMemory { .. } | Run::FreeMemory { .. } | Run::RmUndo { .. } => {
            lemma_memory_resumed(g, cpu, rm, run, reply, others);
        },
        Run::RmOffloadCopy { .. }
        | Run::RmOffloadFree { .. }
        | Run::RmReloadMemory { .. }
        | Run::RmReloadCopy { .. } => {
            lemma_move_resumed(g, cpu, rm, run, reply, others);
        },
        Run::RmCowMemory { cow } => {
            let memory = allocation_of(reply.rm);
            lemma_copy_resumed(g, cpu, rm->0, cow, memory, reply, others);
        },
        Run::RmCowOut { cow, memory } => {
            lemma_copy_resumed(g, cpu, rm->0, cow, memory, reply, others);
        },
        Run::RmCowIn { cow, memory } => {
            lemma_copy_resumed(g, cpu, rm->0, cow, memory, reply, others);
        },
        _ => {
            lemma_run_going_on(g, run, others);
        },
    }
}

/// What a run that is about addresses does with them.
proof fn lemma_run_going_on(g: GpuView, run: Run, others: Set<(u64, u64)>)
    requires
        g.wf(),
        apart(g, others),
        in_flight(run) matches Some(a) ==> alone(g, others, a),
    ensures
        in_flight(run) matches Some(a) ==> apart(g.with_given(a.0, a.1), others),
        match run {
            Run::Bring { block_id, bring, release, .. } => forall|phys: u64|
                apart(
                    #[trigger] with_block_up(
                        g,
                        block_id,
                        bring.vaddr,
                        bring.size,
                        phys,
                        release,
                    ),
                    others,
                ),
            Run::MapExisting { block_id, vaddr, size, .. } => apart(
                g.with_va(block_id, vaddr, size, false),
                others,
            ),
            Run::Offload { block_id, src_vaddr, size, .. } => apart(
                GpuView {
                    used_bytes: sat_sub(g.used_bytes, size),
                    ..g.without_handle(block_id)
                }.with_va(block_id, src_vaddr, size, false),
                others,
            ),
            _ => true,
        },
{
    if let Some(a) = in_flight(run) {
        lemma_give(g, others, a);
    }
    match run {
        Run::Bring { block_id, bring, release, .. } => {
            assert forall|phys: u64|
                apart(
                    #[trigger] with_block_up(
                        g,
                        block_id,
                        bring.vaddr,
                        bring.size,
                        phys,
                        release,
                    ),
                    others,
                ) by {
                let named = g.with_handle(block_id, phys);
                lemma_same_addresses(g, named, others);
                lemma_note(named, others, block_id, (bring.vaddr, bring.size), release);
                let noted = named.with_va(block_id, bring.vaddr, bring.size, release);
                lemma_same_addresses(
                    noted,
                    GpuView { used_bytes: (noted.used_bytes + bring.size) as u64, ..noted },
                    others,
                );
            }
        },
        Run::MapExisting { block_id, vaddr, size, .. } => {
            lemma_note(g, others, block_id, (vaddr, size), false);
        },
        Run::Offload { block_id, src_vaddr, size, .. } => {
            let less = GpuView {
                used_bytes: sat_sub(g.used_bytes, size),
                ..g.without_handle(block_id)
            };
            lemma_same_addresses(g, less, others);
            lemma_note(less, others, block_id, (src_vaddr, size), false);
        },
        _ => {},
    }
}

/// A block whose memory went back keeps its addresses.
proof fn lemma_offload_done(g: GpuView, block_id: u64, size: u64, others: Set<(u64, u64)>)
    requires
        g.wf(),
        apart(g, others),
    ensures
        ({
            let less = GpuView {
                used_bytes: sat_sub(g.used_bytes, size),
                ..g
            }.without_handle(block_id);
            &&& apart(less, others)
            &&& less.va_of(block_id) matches Some(va) ==> apart(
                less.with_va(block_id, va.vaddr, va.size, false),
                others,
            )
        }),
{
    let less = GpuView {
        used_bytes: sat_sub(g.used_bytes, size),
        ..g
    }.without_handle(block_id);
    lemma_same_addresses(g, less, others);
    if let Some(va) = less.va_of(block_id) {
        lemma_note(less, others, block_id, stretch(va), false);
    }
}

/// Whatever is taken or given back, there is room between the free ranges of host
/// memory.
proof fn lemma_buffers_separated(cpu: CpuView)
    requires
        separated(cpu.free),
    ensures
        forall|size: u64| size > 0 ==> separated((#[trigger] cpu.allocating(size)).1.free),
        forall|addr: u64, size: u64|
            can_give(cpu.free, addr, size) ==> separated((#[trigger] cpu.freed(addr, size)).free),
        forall|b: u64, addr: u64, size: u64|
            can_give(cpu.free, addr, size) ==> separated(
                (#[trigger] cpu.without_buffer(b).freed(addr, size)).free,
            ),
{
    assert forall|size: u64| size > 0 implies separated(
        (#[trigger] cpu.allocating(size)).1.free,
    ) by {
        law_free_buffers_stay_separated(cpu, size, 0);
    }
    assert forall|addr: u64, size: u64| can_give(cpu.free, addr, size) implies separated(
        (#[trigger] cpu.freed(addr, size)).free,
    ) by {
        law_free_buffers_stay_separated(cpu, size, addr);
    }
    assert forall|b: u64, addr: u64, size: u64| can_give(cpu.free, addr, size) implies separated(
        (#[trigger] cpu.without_buffer(b).freed(addr, size)).free,
    ) by {
        law_free_buffers_stay_separated(cpu.without_buffer(b), size, addr);
    }
}

/// A decision of the daemon leaves room between the free ranges of host memory when
/// it is begun.
pub proof fn law_begun_decision_keeps_buffers_joined(
    g: GpuView,
    cpu: CpuView,
    rm: Option<RmView>,
    dec: PolarisDecision,
    found: Option<u64>,
)
    requires
        separated(cpu.free),
        dispatch_fits(g, cpu, rm, dec),
        dec.size_bytes > 0,
    ensures
        separated(dispatching(g, cpu, rm, dec, found).2.free),
{
    lemma_buffers_separated(cpu);
    lemma_snapped(dec.size_bytes, g.granule);
    if dec.op == PolarisDecisionOp::CowBreak.code() {
        let size = g.in_granules(dec.size_bytes);
        lemma_taking(cpu.free, size, PAGE);
        lemma_buffers_separated(cpu.allocating(size).1);
    }
}

/// A decision of the daemon leaves room between the free ranges of host memory when
/// it is gone on with.
pub proof fn law_resumed_decision_keeps_buffers_joined(
    g: GpuView,
    cpu: CpuView,
    rm: Option<RmView>,
    run: Run,
    reply: Reply,
)
    requires
        separated(cpu.free),
        run_fits(g, cpu, rm, run),
    ensures
        separated(resuming(g, cpu, rm, run, reply).2.free),
{
    match run {
        Run::Bring { block_id, bring, .. } => {
            if let Fill::Host(src) = bring.fill {
                law_free_buffers_stay_separated(cpu.without_buffer(block_id), bring.size, src);
            }
        },
        Run::FreeMemory { dec } => {
            if let Some(addr) = cpu.buffer_of(dec.block_id) {
                let size = greatest(dec.size_bytes, 1);
                law_free_buffers_stay_separated(cpu.without_buffer(dec.block_id), size, addr);
            }
        },
        Run::Offload { size, cpu_addr, .. } => {
            law_free_buffers_stay_separated(cpu, size, cpu_addr);
        },
        Run::RmOffloadCopy { size, cpu_addr, .. } => {
            law_free_buffers_stay_separated(cpu, size, cpu_addr);
        },
        Run::RmOffloadFree { size, cpu_addr, .. } => {
            law_free_buffers_stay_separated(cpu, size, cpu_addr);
        },
        Run::RmReloadCopy { block_id, size, cpu_addr, .. } => {
            law_free_buffers_stay_separated(cpu.without_buffer(block_id), size, cpu_addr);
        },
        Run::RmCowMemory { cow } => {
            law_free_buffers_stay_separated(cpu, cow.size, cow.buffer);
        },
        Run::RmCowOut { cow, .. } => {
            law_free_buffers_stay_separated(cpu, cow.size, cow.buffer);
        },
        Run::RmCowIn { cow, .. } => {
            law_free_buffers_stay_separated(cpu, cow.size, cow.buffer);
        },
        _ => {},
    }
}

/// Beginning a decision of the runtime keeps addresses apart, those of KV memory
/// included.
pub proof fn law_begun_runtime_decision_keeps_addresses_apart(
    g: GpuView,
    cpu: CpuView,
    dec: PolarisDecision,
    found: Option<u64>,
    others: Set<(u64, u64)>,
)
    requires
        apart(g, others),
        decision_fits(g, cpu, dec),
        dec.size_bytes > 0,
    ensures
        ({
            let (step, h, c) = dispatching_decision(g, cpu, dec, found);
            step_apart(step, h, others)
        }),
{
    let size = g.in_granules(dec.size_bytes);
    lemma_snapped(dec.size_bytes, g.granule);
    lemma_destination(g, others, dec, size);
    if dec.op == PolarisDecisionOp::Free.code() {
        let less = GpuView {
            used_bytes: sat_sub(g.used_bytes, g.va_size_of(dec.block_id)),
            ..g
        };
        lemma_same_addresses(g, less, others);
        lemma_forget(less, others, dec.block_id);
    }
}

/// Going on with a decision of the runtime keeps addresses apart.
pub proof fn law_resumed_runtime_decision_keeps_addresses_apart(
    g: GpuView,
    cpu: CpuView,
    run: Run,
    reply: Reply,
    others: Set<(u64, u64)>,
)
    requires
        apart(g, others),
        step_fits(g, cpu, run),
        in_flight(run) matches Some(a) ==> alone(g, others, a),
    ensures
        ({
            let (step, h, c) = going_on(g, cpu, run, reply);
            step_apart(step, h, others)
        }),
{
    lemma_run_going_on(g, run, others);
}

// ─── KV memory ──────────────────────────────────────────────────────────────

/// The addresses of KV memory.
pub open spec fn kv_stretches(kv: Map<u64, KvView>) -> Set<(u64, u64)> {
    Set::new(|x: (u64, u64)| kv.contains_key(x.0) && kv[x.0].size == x.1)
}

/// KV memory is known by its address, and what it and the blocks hold out of the
/// pool has nothing in common.
pub open spec fn runtime_apart(v: RuntimeView) -> bool {
    &&& apart(v.gpu, kv_stretches(v.kv))
    &&& forall|va: u64| #[trigger] v.kv.contains_key(va) ==> v.kv[va].va == va
}

/// A stretch joins the others.
proof fn lemma_join(g: GpuView, others: Set<(u64, u64)>, a: (u64, u64))
    requires
        apart(g, others),
        alone(g, others, a),
    ensures
        apart(g, others.insert(a)),
        !others.contains(a),
{
    reveal(apart);
    reveal(alone);
}

/// A stretch leaves the others.
proof fn lemma_leave(g: GpuView, others: Set<(u64, u64)>, a: (u64, u64))
    requires
        apart(g, others),
        others.contains(a),
    ensures
        apart(g, others.remove(a)),
        alone(g, others.remove(a), a),
{
    reveal(apart);
    reveal(alone);
}

/// New KV memory has addresses that nobody else holds.
pub proof fn law_new_kv_memory_is_apart(v: RuntimeView, size: u64, alignment: u64)
    requires
        v.wf(),
        kv_fits(v, size, alignment),
        runtime_apart(v),
    ensures
        ({
            let (info, w) = allocating_kv(v, size, alignment);
            &&& runtime_apart(w)
            &&& info matches Ok(i) ==> alone(w.gpu, kv_stretches(v.kv), (i.va, i.size))
                && !v.kv.contains_key(i.va)
        }),
{
    let block_size = kv_block_size(v.gpu.granule, alignment);
    let padded = snapped(size, block_size);
    lemma_snapped(size, block_size);
    let (info, w) = allocating_kv(v, size, alignment);
    if let Ok(i) = info {
        let others = kv_stretches(v.kv);
        lemma_take(v.gpu, others, padded, greatest(greatest(alignment, v.gpu.granule), 1));
        if v.kv.contains_key(i.va) {
            reveal(apart);
            reveal(alone);
            assert(others.contains((i.va, v.kv[i.va].size)));
        }
        lemma_join(w.gpu, others, (i.va, i.size));
        assert(kv_stretches(w.kv) =~= others.insert((i.va, i.size)));
    }
}

/// While everything is apart, any KV memory can go.
pub proof fn law_any_kv_memory_can_go(v: RuntimeView, va: u64)
    requires
        runtime_apart(v),
        v.kv.contains_key(va),
    ensures
        can_give(v.gpu.free, v.kv[va].va, v.kv[va].size),
{
    reveal(apart);
    assert(kv_stretches(v.kv).contains((va, v.kv[va].size)));
}

/// The end of giving memory back.
proof fn lemma_released(
    v: RuntimeView,
    va: u64,
    from: int,
    first_error: Option<KvError>,
    free: bool,
)
    requires
        v.wf(),
        runtime_apart(v),
        v.kv.contains_key(va),
    ensures
        runtime_apart(releasing_kv(v, va, from, first_error, free).1),
{
    let others = kv_stretches(v.kv);
    let a = (va, v.kv[va].size);
    lemma_leave(v.gpu, others, a);
    lemma_give(v.gpu, others.remove(a), a);
    assert(kv_stretches(v.kv.remove(va)) =~= others.remove(a));
}

/// Beginning to free KV memory, or to take its memory away, keeps addresses
/// apart.
pub proof fn law_freed_kv_memory_leaves_the_rest_apart(
    v: RuntimeView,
    va: u64,
    context_is_current: bool,
)
    requires
        v.wf(),
        runtime_apart(v),
    ensures
        runtime_apart(freeing_all(v, va, context_is_current).1),
        runtime_apart(unmapping_all(v, va, context_is_current).1),
{
    if v.kv.contains_key(va) {
        lemma_released(v, va, 0, None, true);
        lemma_released(v, va, 0, None, false);
        let others = kv_stretches(v.kv);
        let a = (va, v.kv[va].size);
        lemma_leave(v.gpu, others, a);
        assert(kv_stretches(v.kv.remove(va)) =~= others.remove(a));
    }
}

/// Going on with KV memory keeps addresses apart.
pub proof fn law_resumed_kv_memory_keeps_addresses_apart(v: RuntimeView, run: KvRun, reply: Reply)
    requires
        runtime_apart(v),
        kv_run_fits(v, run),
    ensures
        runtime_apart(kv_going_on(v, run, reply).1),
{
    let others = kv_stretches(v.kv);
    match run {
        KvRun::Up { va, block, bring } => {
            let w = kv_going_on(v, run, reply).1;
            assert(kv_stretches(w.kv) =~= others);
            lemma_same_addresses(v.gpu, w.gpu, others);
        },
        KvRun::Down { va, block, unmapped, first_error, free } => {
            if unmapped {
                let a = v.kv[va];
                let w = RuntimeView {
                    gpu: GpuView { used_bytes: sat_sub(v.gpu.used_bytes, a.block_size), ..v.gpu },
                    kv: v.kv.insert(va, a.with(block as int, 0)),
                    ..v
                };
                assert(kv_stretches(w.kv) =~= others);
                lemma_same_addresses(v.gpu, w.gpu, others);
                let e = or_error(
                    first_error,
                    reply,
                    KvError::Release { block, handle: a.handles[block as int] },
                );
                lemma_released(w, va, block + 1, e, free);
            }
        },
    }
}

} // verus!
