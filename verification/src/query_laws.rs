//! What questions to the device are answered: what the tables hold, and nothing else.

use crate::abi::{
    PolarisBlockGetStateArg, PolarisBlockState, PolarisEvictionPolicy, PolarisGetGlobalStatsArg,
    PolarisListSessionsArg, PolarisPhase, PolarisProbeRmCopyArg, PolarisProbeRmPhysArg,
    PolarisRmCopyArg, PolarisSessionGetStatsArg, PolarisSetPolicyArg, PolarisUnmapStaticBlockArg,
};
use crate::blocks::{own_at, reserve_fault_told, state_told};
use crate::device::policy_set;
use crate::errno::{EBUSY, EINVAL, ENOENT};
use crate::fault::FaultStep;
use crate::ioctl::outcome_of;
use crate::kv::code_for_c;
use crate::places::{block_at, law_block_is_found, law_session_is_found, no_session, session_at};
use crate::seqs::{
    count, first_index, lemma_count_step, lemma_first_index, lemma_first_index_is, sum,
};
use crate::sessions::{session_told, sessions_told};
use crate::state::{static_slot_is, PolarisView};
use crate::stats::{
    cpu_total, cpu_used, gpu_total, gpu_used, in_other_state, in_state, private_bytes,
    saved_by_sharing, shared_bytes, totals_told,
};
use crate::types::{PolarisBlock, PolarisFastStaticBlockSlot, PolarisGpu, PolarisStaticBlock};
use crate::vaspace::{
    copy_span, copy_told, helper_errno, names_space, pattern_told, phys_told, static_block_at,
    static_block_to_unmap, static_block_unmapped, unmap_told, CopyProbeReply, CopyReply,
    PhysProbeReply,
};
use vstd::prelude::*;

verus! {

// ─── Blocks and sessions ────────────────────────────────────────────────────

/// A session's own block at a token is told of as it is: where it lies, what state it
/// is in, how many sessions share it.
pub proof fn law_own_block_is_told_of(v: PolarisView, arg: PolarisBlockGetStateArg, i: int)
    requires
        0 <= i < v.blocks.len(),
        v.blocks[i].session_id == arg.session_id,
        v.blocks[i].token_start == arg.token_start,
        forall|j: int|
            0 <= j < i ==> (#[trigger] v.blocks[j]).session_id != arg.session_id
                || v.blocks[j].token_start != arg.token_start,
    ensures
        state_told(v, arg) matches Ok(told) && told.block_id == v.blocks[i].block_id && told.refcount
            == v.blocks[i].refcount && told.gpu_vaddr == v.blocks[i].gpu_vaddr && told.state
            == v.blocks[i].state.code() && told.session_id == arg.session_id && told.token_start
            == arg.token_start,
{
    lemma_first_index_is(v.blocks, own_at(arg.session_id, arg.token_start), i);
}

/// Whatever is told of is a block at that token which the session reserved or lists;
/// where there is none the answer is that there is none.
pub proof fn law_only_visible_blocks_are_told_of(v: PolarisView, arg: PolarisBlockGetStateArg, k: int)
    requires
        session_at(v, arg.session_id, k),
    ensures
        state_told(v, arg) is Err ==> state_told(v, arg)->Err_0 == ENOENT,
        state_told(v, arg) matches Ok(told) ==> exists|i: int|
            0 <= i < v.blocks.len() && (#[trigger] v.blocks[i]).block_id == told.block_id
                && v.blocks[i].token_start == arg.token_start && v.blocks[i].refcount
                == told.refcount && v.blocks[i].gpu_vaddr == told.gpu_vaddr && (
            v.blocks[i].session_id == arg.session_id || v.sessions[k].block_ids.contains(
                told.block_id,
            )),
        (exists|i: int, j: int|
            0 <= i < v.blocks.len() && 0 <= j < v.sessions[k].block_ids.len() && (
            #[trigger] v.blocks[i]).block_id == #[trigger] v.sessions[k].block_ids[j]
                && v.blocks[i].token_start == arg.token_start) ==> state_told(v, arg) is Ok,
{
    law_session_is_found(v, arg.session_id);
    let own = own_at(arg.session_id, arg.token_start);
    let ids = v.sessions[k].block_ids;
    let names = crate::blocks::names_block_at(v.blocks, arg.token_start);
    lemma_first_index(v.blocks, own);
    lemma_first_index(ids, names);
    if let Some(j) = first_index(ids, names) {
        lemma_first_index(v.blocks, crate::blocks::named_at(ids[j], arg.token_start));
    }
    if exists|i: int, j: int|
        0 <= i < v.blocks.len() && 0 <= j < ids.len() && (#[trigger] v.blocks[i]).block_id
            == #[trigger] ids[j] && v.blocks[i].token_start == arg.token_start {
        let (i, j) = choose|i: int, j: int|
            0 <= i < v.blocks.len() && 0 <= j < ids.len() && (#[trigger] v.blocks[i]).block_id
                == #[trigger] ids[j] && v.blocks[i].token_start == arg.token_start;
        assert(crate::blocks::named_at(ids[j], arg.token_start)(v.blocks[i]));
        assert(names(ids[j]));
    }
}

/// A session is told of as it is; an unknown one is not.
pub proof fn law_session_is_told_of(v: PolarisView, arg: PolarisSessionGetStatsArg, k: int)
    requires
        session_at(v, arg.session_id, k),
        v.sessions[k].block_ids.len() <= u32::MAX,
    ensures
        session_told(v, arg) matches Ok(told) && told.session_id == arg.session_id && told.home_gpu
            == v.sessions[k].home_gpu && told.beam_width == v.sessions[k].beam_width
            && told.num_blocks == v.sessions[k].block_ids.len() && told.total_bytes
            == v.sessions[k].gpu_vas_size,
{
    law_session_is_found(v, arg.session_id);
}

/// A session that there is not is not told of.
pub proof fn law_unknown_session_is_not_told_of(v: PolarisView, arg: PolarisSessionGetStatsArg)
    requires
        no_session(v, arg.session_id),
    ensures
        session_told(v, arg) is Err && session_told(v, arg)->Err_0 == ENOENT,
{
    law_session_is_found(v, arg.session_id);
}

/// Up to sixty-four sessions are listed, in the order of the table, none twice and
/// none left out before them.
pub proof fn law_sessions_are_listed_in_order(
    v: PolarisView,
    arg: PolarisListSessionsArg,
    r: PolarisListSessionsArg,
    i: int,
)
    requires
        sessions_told(v, arg, r),
        0 <= i < v.sessions.len(),
    ensures
        r.count <= 64,
        v.sessions.len() <= 64 ==> r.count == v.sessions.len(),
        v.sessions.len() > 64 ==> r.count == 64,
        i < 64 ==> i < r.count && r.session_ids@[i] == v.sessions[i].session_id,
{
}

/// A policy that is chosen is in force, and its moves are counted from nothing; the
/// tables stay as they are. A number that stands for none is refused.
pub proof fn law_chosen_policy_is_in_force(
    v: PolarisView,
    arg: PolarisSetPolicyArg,
    r: Result<(), i32>,
    w: PolarisView,
)
    requires
        policy_set(v, arg, r, w),
    ensures
        arg.policy == 0 ==> w.eviction_policy is Fifo,
        arg.policy == 1 ==> w.eviction_policy is Lru,
        arg.policy == 2 ==> w.eviction_policy is PhaseAware,
        arg.policy == 3 ==> w.eviction_policy is AttentionStream,
        r is Ok <==> arg.policy < 4,
        r is Ok ==> w.offload_count == 0 && w.reload_count == 0,
        r is Err ==> w == v && r->Err_0 == 22,
        w.blocks == v.blocks && w.sessions == v.sessions && w.gpus == v.gpus && w.pending_decisions
            == v.pending_decisions && w.total_evictions == v.total_evictions && w.cow_break_count
            == v.cow_break_count,
{
}

/// Numbers tell states, phases and policies apart, and phases read back.
pub proof fn law_numbers_tell_apart(
    s: PolarisBlockState,
    t: PolarisBlockState,
    p: PolarisPhase,
    e: PolarisEvictionPolicy,
    f: PolarisEvictionPolicy,
)
    ensures
        s.code() == t.code() ==> s == t,
        PolarisPhase::of_code(p.code()) == p,
        p is Decode <==> p.code() == 2,
        e.code() == f.code() ==> e == f,
        s.pending() <==> !(s is Resident || s is Unmapped || s is CpuOffloaded || s is Evicted),
{
}

// ─── Totals ─────────────────────────────────────────────────────────────────

/// A measure over a table with one more entry.
proof fn lemma_sum_push<T>(s: Seq<T>, f: spec_fn(T) -> int, x: T)
    ensures
        sum(s.push(x), f) == sum(s, f) + f(x),
{
    assert(s.push(x).drop_last() =~= s);
}

/// A count over a table with one more entry.
proof fn lemma_count_push<T>(s: Seq<T>, p: spec_fn(T) -> bool, x: T)
    ensures
        count(s.push(x), p) == count(s, p) + (if p(x) {
            1int
        } else {
            0
        }),
{
    let t = s.push(x);
    lemma_count_step(t, p, s.len() as int);
    assert(t.take(s.len() as int) =~= s);
    assert(t.take(s.len() as int + 1) =~= t);
}

/// One block more is one more of its state, and its bytes are told of as shared or as
/// private; no other total changes.
pub proof fn law_totals_follow_a_block(
    v: PolarisView,
    arg: PolarisGetGlobalStatsArg,
    r: PolarisGetGlobalStatsArg,
    t: PolarisGetGlobalStatsArg,
    b: PolarisBlock,
)
    requires
        totals_told(v, arg, r),
        totals_told((PolarisView { blocks: v.blocks.push(b), ..v }), arg, t),
    ensures
        t.total_blocks == r.total_blocks + 1,
        b.state is Resident ==> t.blocks_resident == r.blocks_resident + 1,
        !(b.state is Resident) ==> t.blocks_resident == r.blocks_resident,
        b.state is CpuOffloaded ==> t.blocks_offloaded == r.blocks_offloaded + 1,
        !(b.state is CpuOffloaded) ==> t.blocks_offloaded == r.blocks_offloaded,
        b.state is Evicted ==> t.blocks_evicted == r.blocks_evicted + 1,
        !(b.state is Evicted) ==> t.blocks_evicted == r.blocks_evicted,
        b.flags.shared ==> t.shared_gpu_bytes == r.shared_gpu_bytes + b.size_bytes
            && t.private_gpu_bytes == r.private_gpu_bytes,
        !b.flags.shared ==> t.private_gpu_bytes == r.private_gpu_bytes + b.size_bytes
            && t.shared_gpu_bytes == r.shared_gpu_bytes && t.memory_saved_vs_naive
            == r.memory_saved_vs_naive,
        t.total_gpu_bytes == r.total_gpu_bytes && t.used_gpu_bytes == r.used_gpu_bytes
            && t.cpu_pool_total == r.cpu_pool_total && t.cpu_pool_used == r.cpu_pool_used,
        t.total_gpus == r.total_gpus && t.total_sessions == r.total_sessions,
{
    lemma_count_push(v.blocks, in_state(PolarisBlockState::Resident), b);
    lemma_count_push(v.blocks, in_state(PolarisBlockState::CpuOffloaded), b);
    lemma_count_push(v.blocks, in_state(PolarisBlockState::Evicted), b);
    lemma_sum_push(v.blocks, shared_bytes(), b);
    lemma_sum_push(v.blocks, private_bytes(), b);
    assert(v.blocks.push(b).drop_last() =~= v.blocks);
}

/// Each session but the first that shares a block saves a copy of it; what was copied
/// after all is taken off.
pub proof fn law_sharing_saves_memory(blocks: Seq<PolarisBlock>, b: PolarisBlock)
    requires
        b.flags.shared,
        b.refcount >= 1,
        saved_by_sharing(blocks) + (b.refcount - 1) * b.size_bytes <= u64::MAX,
    ensures
        saved_by_sharing(blocks.push(b)) == saved_by_sharing(blocks) + (b.refcount - 1)
            * b.size_bytes,
{
    assert(blocks.push(b).drop_last() =~= blocks);
    assert((b.refcount - 1) * b.size_bytes >= 0) by (nonlinear_arith)
        requires
            b.refcount >= 1,
    ;
}

/// What private copies took is not told of as saved.
pub proof fn law_copies_are_taken_off(
    v: PolarisView,
    arg: PolarisGetGlobalStatsArg,
    r: PolarisGetGlobalStatsArg,
)
    requires
        totals_told(v, arg, r),
    ensures
        v.cow_copy_bytes <= saved_by_sharing(v.blocks) ==> r.memory_saved_vs_naive
            + v.cow_copy_bytes == saved_by_sharing(v.blocks),
        v.cow_copy_bytes > saved_by_sharing(v.blocks) ==> r.memory_saved_vs_naive == 0,
        r.cow_copy_bytes == v.cow_copy_bytes && r.cow_break_count == v.cow_break_count,
        r.offload_count == v.offload_count && r.reload_count == v.reload_count && r.total_evictions
            == v.total_evictions,
        r.eviction_policy == v.eviction_policy.code(),
{
}

/// One GPU more adds its memory and its pool to the totals; nothing is told of the
/// blocks on that account.
pub proof fn law_totals_follow_a_gpu(
    v: PolarisView,
    arg: PolarisGetGlobalStatsArg,
    r: PolarisGetGlobalStatsArg,
    t: PolarisGetGlobalStatsArg,
    g: PolarisGpu,
)
    requires
        totals_told(v, arg, r),
        totals_told((PolarisView { gpus: v.gpus.push(g), ..v }), arg, t),
    ensures
        t.total_gpus == r.total_gpus + 1,
        t.total_gpu_bytes == r.total_gpu_bytes + g.total_bytes,
        t.used_gpu_bytes == r.used_gpu_bytes + g.used_bytes,
        t.cpu_pool_total == r.cpu_pool_total + g.cpu_pool_total_bytes,
        t.cpu_pool_used == r.cpu_pool_used + g.cpu_pool_used_bytes,
        t.total_blocks == r.total_blocks && t.shared_gpu_bytes == r.shared_gpu_bytes
            && t.private_gpu_bytes == r.private_gpu_bytes,
{
    lemma_sum_push(v.gpus, gpu_total(), g);
    lemma_sum_push(v.gpus, gpu_used(), g);
    lemma_sum_push(v.gpus, cpu_total(), g);
    lemma_sum_push(v.gpus, cpu_used(), g);
}

/// Every block is counted in exactly one place: resident, on the host, lost, or under
/// way; and its bytes are either shared or private.
pub proof fn law_every_block_is_counted_once(blocks: Seq<PolarisBlock>)
    ensures
        count(blocks, in_state(PolarisBlockState::Resident)) + count(
            blocks,
            in_state(PolarisBlockState::CpuOffloaded),
        ) + count(blocks, in_state(PolarisBlockState::Evicted)) + count(blocks, in_other_state())
            == blocks.len(),
        sum(blocks, shared_bytes()) + sum(blocks, private_bytes()) == sum(
            blocks,
            |b: PolarisBlock| b.size_bytes as int,
        ),
    decreases blocks.len(),
{
    let f = |b: PolarisBlock| b.size_bytes as int;
    if blocks.len() == 0 {
        reveal(Seq::filter);
    } else {
        let init = blocks.drop_last();
        let b = blocks.last();
        law_every_block_is_counted_once(init);
        assert(init.push(b) =~= blocks);
        lemma_count_push(init, in_state(PolarisBlockState::Resident), b);
        lemma_count_push(init, in_state(PolarisBlockState::CpuOffloaded), b);
        lemma_count_push(init, in_state(PolarisBlockState::Evicted), b);
        lemma_count_push(init, in_other_state(), b);
        lemma_sum_push(init, shared_bytes(), b);
        lemma_sum_push(init, private_bytes(), b);
        lemma_sum_push(init, f, b);
        assert(sum(init, f) == sum(init, |b: PolarisBlock| b.size_bytes as int));
    }
}

// ─── Static memory and copies ───────────────────────────────────────────────

/// Static memory can be unmapped where a fault mapped it: the answer is the address
/// space of that fault, for at most as many bytes as were announced.
pub proof fn law_static_memory_is_unmapped_where_it_was_mapped(
    v: PolarisView,
    arg: PolarisUnmapStaticBlockArg,
    i: int,
    j: int,
)
    requires
        arg.va_space_token != 0,
        arg.length != 0,
        0 <= i < v.static_blocks.len(),
        same_place(v.static_blocks[i], arg),
        forall|a: int| 0 <= a < i ==> !same_place(#[trigger] v.static_blocks[a], arg),
        0 <= j < v.fast_static_blocks.len(),
        same_slot(v.fast_static_blocks[j], arg),
        forall|a: int| 0 <= a < j ==> !same_slot(#[trigger] v.fast_static_blocks[a], arg),
    ensures
        ({
            let r = static_block_to_unmap(v, arg);
            let ptr = v.fast_static_blocks[j].last_gpu_va_space_ptr;
            let w = static_block_unmapped(v, arg);
            &&& arg.length > v.static_blocks[i].length ==> r is Err && r->Err_0 == EINVAL
            &&& arg.length <= v.static_blocks[i].length && ptr == 0 ==> r is Err && r->Err_0
                == ENOENT
            &&& arg.length <= v.static_blocks[i].length && ptr != 0 ==> r is Ok && r->Ok_0 == ptr
            &&& w.fast_static_blocks.len() == v.fast_static_blocks.len()
            &&& w.fast_static_blocks[j].last_gpu_va_space_ptr == 0
            &&& w.fast_static_blocks[j].base == v.fast_static_blocks[j].base
                && w.fast_static_blocks[j].length == v.fast_static_blocks[j].length
                && w.fast_static_blocks[j].h_memory == v.fast_static_blocks[j].h_memory
            &&& forall|a: int|
                0 <= a < v.fast_static_blocks.len() && a != j
                    ==> #[trigger] w.fast_static_blocks[a] == v.fast_static_blocks[a]
            &&& w.static_blocks == v.static_blocks && w.block_mappings == v.block_mappings
        }),
{
    let p = static_block_at(arg.gpu_id, arg.rm_client_token, arg.va_space_token, arg.base);
    let q = static_slot_is(arg.gpu_id, arg.rm_client_token, arg.va_space_token, arg.base);
    lemma_first_index_is(v.static_blocks, p, i);
    lemma_first_index_is(v.fast_static_blocks, q, j);
}

/// The static block is the one that the request is about.
pub open spec fn same_place(s: PolarisStaticBlock, arg: PolarisUnmapStaticBlockArg) -> bool {
    s.gpu_id == arg.gpu_id && s.rm_client_token == arg.rm_client_token && s.va_space_token
        == arg.va_space_token && s.base == arg.base
}

/// The slot is that of the static block that the request is about.
pub open spec fn same_slot(s: PolarisFastStaticBlockSlot, arg: PolarisUnmapStaticBlockArg) -> bool {
    s.gpu_id == arg.gpu_id && s.rm_client_token == arg.rm_client_token && s.va_space_token
        == arg.va_space_token && s.base == arg.base
}

/// Static memory that was not announced cannot be unmapped, nor can nothing.
pub proof fn law_unknown_static_memory_is_not_unmapped(
    v: PolarisView,
    arg: PolarisUnmapStaticBlockArg,
)
    ensures
        arg.va_space_token == 0 || arg.length == 0 ==> static_block_to_unmap(v, arg) is Err
            && static_block_to_unmap(v, arg)->Err_0 == EINVAL,
        arg.va_space_token != 0 && arg.length != 0 && (forall|a: int|
            0 <= a < v.static_blocks.len() ==> !same_place(#[trigger] v.static_blocks[a], arg))
            ==> static_block_to_unmap(v, arg) is Err && static_block_to_unmap(v, arg)->Err_0
            == ENOENT,
{
    let p = static_block_at(arg.gpu_id, arg.rm_client_token, arg.va_space_token, arg.base);
    lemma_first_index(v.static_blocks, p);
}

/// The block has exactly one address space of the kind: the one it is mapped in, or,
/// with `past`, the one it was last mapped in.
pub open spec fn only_in(v: PolarisView, block_id: u64, ptr: u64, past: bool) -> bool {
    &&& ptr != 0
    &&& exists|k: int|
        0 <= k < v.block_mappings.len() && (#[trigger] v.block_mappings[k]).block_id == block_id
            && space_named(v, k, past) == ptr
    &&& forall|k: int|
        0 <= k < v.block_mappings.len() && (#[trigger] v.block_mappings[k]).block_id == block_id
            ==> space_named(v, k, past) == ptr || space_named(v, k, past) == 0
}

/// The address space that a mapping names.
pub open spec fn space_named(v: PolarisView, k: int, past: bool) -> u64 {
    if past {
        v.block_mappings[k].copy_gpu_va_space_ptr
    } else {
        v.block_mappings[k].last_gpu_va_space_ptr
    }
}

/// No mapping of the block is mapped anywhere now.
pub open spec fn mapped_nowhere(v: PolarisView, block_id: u64) -> bool {
    forall|k: int|
        0 <= k < v.block_mappings.len() && (#[trigger] v.block_mappings[k]).block_id == block_id
            ==> v.block_mappings[k].last_gpu_va_space_ptr == 0
}

/// The one address space of a block is the one that its first mapping names.
proof fn lemma_only_space(v: PolarisView, block_id: u64, ptr: u64, past: bool)
    requires
        only_in(v, block_id, ptr, past),
    ensures
        crate::vaspace::only_space(v, block_id, past) == Ok::<u64, i32>(ptr),
{
    let p = names_space(block_id, past);
    lemma_first_index(v.block_mappings, p);
    let k = choose|k: int|
        0 <= k < v.block_mappings.len() && (#[trigger] v.block_mappings[k]).block_id == block_id
            && space_named(v, k, past) == ptr;
    assert(p(v.block_mappings[k]));
}

/// A block on its way to the host is copied through the address space that it is mapped
/// in, or, once it is unmapped, through the one that it was last mapped in; what is
/// copied is the memory that it is registered with.
pub proof fn law_block_under_way_can_be_copied(
    v: PolarisView,
    arg: PolarisRmCopyArg,
    i: int,
    ptr: u64,
    past: bool,
)
    requires
        arg.block_id != 0,
        arg.user_cpu_addr != 0,
        arg.direction <= 1,
        arg.rm_control_fd == 0 && arg.rm_h_client == 0 && arg.rm_h_memory == 0,
        block_at(v, arg.block_id, i),
        v.blocks[i].state is OffloadPending,
        v.blocks[i].rm_h_client != 0,
        v.blocks[i].rm_h_memory != 0,
        v.blocks[i].rm_backing_length >= v.blocks[i].size_bytes,
        v.blocks[i].rm_backing_length > 0,
        only_in(v, arg.block_id, ptr, past),
        past ==> mapped_nowhere(v, arg.block_id),
    ensures
        ({
            let b = v.blocks[i];
            let r = copy_span(v, arg);
            let n = if arg.length == 0 {
                b.rm_backing_length
            } else {
                arg.length
            };
            let within = arg.offset < b.rm_backing_length && arg.offset + n <= b.rm_backing_length;
            &&& within ==> r is Ok && r->Ok_0.1 == n && r->Ok_0.0.gpu_va_space_ptr == ptr
                && r->Ok_0.0.h_memory == b.rm_h_memory && r->Ok_0.0.h_client == b.rm_h_client
                && r->Ok_0.0.block_id == b.block_id && r->Ok_0.0.gpu_id == b.home_gpu
            &&& !within ==> r is Err && r->Err_0 == EINVAL
        }),
{
    law_block_is_found(v, arg.block_id);
    lemma_only_space(v, arg.block_id, ptr, past);
    lemma_first_index(v.block_mappings, names_space(arg.block_id, false));
    if !past {
        let k = choose|k: int|
            0 <= k < v.block_mappings.len() && (#[trigger] v.block_mappings[k]).block_id
                == arg.block_id && space_named(v, k, past) == ptr;
        assert(names_space(arg.block_id, false)(v.block_mappings[k]));
    }
}

/// A copy that names memory of its own fills that memory, through the block's address
/// space, whatever the block is registered with: as much as it asks for, or the block's
/// size.
pub proof fn law_copy_into_named_memory(
    v: PolarisView,
    arg: PolarisRmCopyArg,
    i: int,
    ptr: u64,
    past: bool,
)
    requires
        arg.block_id != 0,
        arg.user_cpu_addr != 0,
        arg.direction <= 1,
        arg.rm_control_fd != 0 || arg.rm_h_client != 0 || arg.rm_h_memory != 0,
        block_at(v, arg.block_id, i),
        only_in(v, arg.block_id, ptr, past),
        past ==> mapped_nowhere(v, arg.block_id),
    ensures
        ({
            let r = copy_span(v, arg);
            let n = if arg.length == 0 {
                v.blocks[i].size_bytes
            } else {
                arg.length
            };
            &&& n == 0 ==> r is Err && r->Err_0 == EINVAL
            &&& n != 0 ==> r is Ok && r->Ok_0.1 == n && r->Ok_0.0.length == n
                && r->Ok_0.0.gpu_va_space_ptr == ptr && r->Ok_0.0.h_memory == arg.rm_h_memory
                && r->Ok_0.0.h_client == arg.rm_h_client && r->Ok_0.0.rm_control_fd
                == arg.rm_control_fd && r->Ok_0.0.gpu_id == v.blocks[i].home_gpu
        }),
{
    law_block_is_found(v, arg.block_id);
    lemma_only_space(v, arg.block_id, ptr, past);
    lemma_first_index(v.block_mappings, names_space(arg.block_id, false));
    if !past {
        let k = choose|k: int|
            0 <= k < v.block_mappings.len() && (#[trigger] v.block_mappings[k]).block_id
                == arg.block_id && space_named(v, k, past) == ptr;
        assert(names_space(arg.block_id, false)(v.block_mappings[k]));
    }
}

/// A block that is mapped in two address spaces cannot be copied: there is no one place
/// to copy through.
pub proof fn law_block_in_two_spaces_is_not_copied(
    v: PolarisView,
    arg: PolarisRmCopyArg,
    i: int,
    a: int,
    b: int,
)
    requires
        arg.block_id != 0,
        arg.user_cpu_addr != 0,
        arg.direction <= 1,
        arg.rm_h_memory != 0,
        block_at(v, arg.block_id, i),
        0 <= a < v.block_mappings.len(),
        0 <= b < v.block_mappings.len(),
        v.block_mappings[a].block_id == arg.block_id,
        v.block_mappings[b].block_id == arg.block_id,
        v.block_mappings[a].last_gpu_va_space_ptr != 0,
        v.block_mappings[b].last_gpu_va_space_ptr != 0,
        v.block_mappings[a].last_gpu_va_space_ptr != v.block_mappings[b].last_gpu_va_space_ptr,
    ensures
        copy_span(v, arg) is Err && copy_span(v, arg)->Err_0 == EBUSY,
{
    law_block_is_found(v, arg.block_id);
    let p = names_space(arg.block_id, false);
    lemma_first_index(v.block_mappings, p);
    assert(p(v.block_mappings[a]));
    assert(p(v.block_mappings[b]));
}

/// What a helper found is handed on as it is, to the request that it was asked for; what
/// it failed with is handed on instead where it failed.
pub proof fn law_what_helpers_find_is_handed_on(
    arg: PolarisRmCopyArg,
    n: u64,
    ret: i32,
    found: CopyReply,
)
    ensures
        ret != 0 ==> copy_told(arg, n, ret, found) is Err && copy_told(arg, n, ret, found)->Err_0
            == helper_errno(ret),
        ret == 0 ==> (copy_told(arg, n, ret, found) matches Ok(told) && told.bytes_copied
            == found.bytes_copied && told.length == n && told.block_id == arg.block_id
            && told.offset == arg.offset && told.user_cpu_addr == arg.user_cpu_addr
            && told.direction == arg.direction && told.page_size == found.page_size
            && told.phys_addr_count == found.phys_addr_count && told.first_phys_addr
            == found.first_phys_addr && told.last_phys_addr == found.last_phys_addr && told.flags
            == found.flags),
        unmap_told(ret) is Ok <==> ret == 0,
        ret != 0 ==> unmap_told(ret)->Err_0 == helper_errno(ret),
{
}

/// What a probe of a block's memory found is handed on: where the memory lies, and of
/// what kind it is, one bit for each kind.
pub proof fn law_what_probes_find_is_handed_on(
    arg: PolarisProbeRmPhysArg,
    n: u64,
    ret: i32,
    found: PhysProbeReply,
)
    ensures
        ret != 0 ==> phys_told(arg, n, ret, found) is Err,
        ret == 0 ==> (phys_told(arg, n, ret, found) matches Ok(told) && told.block_id
            == arg.block_id && told.offset == arg.offset && told.length == n && told.page_size
            == found.page_size && told.phys_addr_count == found.phys_addr_count
            && told.first_phys_addr == found.first_phys_addr && told.last_phys_addr
            == found.last_phys_addr && told.flags == found.contiguous % 2 + 2 * (found.sysmem % 2)
            + 4 * (found.egm % 2) + 8 * (found.fabricmem % 2)),
{
    let c = found.contiguous;
    let s = found.sysmem;
    let e = found.egm;
    let f = found.fabricmem;
    assert((c & 1) | ((s & 1) << 1) | ((e & 1) << 2) | ((f & 1) << 3) == c % 2 + 2 * (s % 2) + 4
        * (e % 2) + 8 * (f % 2)) by (bit_vector);
}

/// What the test of a block's memory found is handed on: how much was right, and what was
/// wrong where.
pub proof fn law_what_tests_find_is_handed_on(
    arg: PolarisProbeRmCopyArg,
    n: u64,
    ret: i32,
    found: CopyProbeReply,
)
    ensures
        ret != 0 ==> pattern_told(arg, n, ret, found) is Err,
        ret == 0 ==> (pattern_told(arg, n, ret, found) matches Ok(told) && told.block_id
            == arg.block_id && told.length == n && told.bytes_checked == found.bytes_checked
            && told.first_mismatch_offset == found.first_mismatch_offset && told.expected_byte
            == found.expected_byte && told.actual_byte == found.actual_byte && told.page_size
            == found.page_size && told.phys_addr_count == found.phys_addr_count
            && told.first_phys_addr == found.first_phys_addr && told.last_phys_addr
            == found.last_phys_addr && told.flags == found.flags),
{
}

/// A system call that did not fail worked; one that failed has an error, its own or an
/// input/output error where it gives none.
pub proof fn law_failed_calls_have_an_error(ret: i32, errno: i32)
    ensures
        outcome_of(ret, errno) is Ok <==> ret >= 0,
        ret < 0 && errno != 0 ==> outcome_of(ret, errno)->Err_0 == errno,
        ret < 0 && errno == 0 ==> outcome_of(ret, errno)->Err_0 == 5,
{
}

/// What C is handed for a failure is below zero, with the number of the failure.
pub proof fn law_failures_are_below_zero_for_c(errno: Option<i32>)
    requires
        errno matches Some(e) ==> e != 0,
    ensures
        code_for_c(errno) < 0,
        errno matches Some(e) ==> code_for_c(errno) == e || code_for_c(errno) == -e,
        errno is None ==> code_for_c(errno) == -5,
{
}

/// The fault that a reservation raises has to bring the block: anything but a wait is a
/// failure.
pub proof fn law_reserved_block_has_to_come(step: Result<FaultStep, i32>)
    ensures
        reserve_fault_told(step) is Ok <==> step is Ok && step->Ok_0 is Wait,
        reserve_fault_told(step) is Ok ==> reserve_fault_told(step) == step,
        step is Err ==> reserve_fault_told(step) == step,
        step is Ok && !(step->Ok_0 is Wait) ==> reserve_fault_told(step)->Err_0 == 5,
{
}

/// What a helper returns is an error number, or stands for a bad argument.
pub proof fn law_helpers_fail_with_an_error(ret: i32)
    ensures
        1 <= helper_errno(ret) <= 4095,
        1 <= ret <= 4095 ==> helper_errno(ret) == ret,
        ret <= 0 || ret > 4095 ==> helper_errno(ret) == 22,
{
}

} // verus!
