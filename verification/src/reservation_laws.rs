//! What reserving, releasing, touching and spilling are for: a block for all the
//! tokens that were asked for, at their addresses, and the end of it.

use crate::abi::{
    PolarisBlockReleaseArg, PolarisBlockReserveArg, PolarisBlockTouchArg,
};
use crate::blocks::{
    block_in_the_way, id_is, listed_exactly, listed_overlapping, own_overlapping, releasing,
    reserving, spilling, touching,
};
use crate::errno::{EBUSY, EINVAL, ENODEV, ENOENT, ENOMEM};
use crate::order::inv;
use crate::places::{
    block_at, gpu_at, law_block_is_found, law_gpu_is_found, law_session_is_found, no_block,
    no_session, session_at,
};
use crate::seqs::{
    first_index, lemma_filter_members, lemma_first_index, lemma_first_index_is,
};
use crate::sessions::mapping_outside;
use crate::state::{id_is_not, mapping_not_of, PolarisView};
use crate::types::{PolarisBlock, PolarisBlockMapping, SessionView};
use vstd::prelude::*;

verus! {

// ─── In plain terms ─────────────────────────────────────────────────────────

/// The block has none of the tokens from `start` up to `end`, nor lies among them.
pub open spec fn clear_of_tokens(b: PolarisBlock, start: int, end: int) -> bool {
    b.token_start + b.token_count <= start || end <= b.token_start
}

/// No block that the session reserved or lists has any of the tokens.
pub open spec fn tokens_are_free(v: PolarisView, s: SessionView, start: int, end: int) -> bool {
    forall|j: int|
        0 <= j < v.blocks.len() && ((#[trigger] v.blocks[j]).session_id == s.session_id
            || s.block_ids.contains(v.blocks[j].block_id)) ==> clear_of_tokens(
            v.blocks[j],
            start,
            end,
        )
}

/// Entry `i` is the first block with some of the tokens that the session reserved, or,
/// where it reserved none, that it lists.
pub open spec fn has_the_tokens(
    v: PolarisView,
    s: SessionView,
    start: int,
    end: int,
    i: int,
) -> bool {
    &&& 0 <= i < v.blocks.len()
    &&& !clear_of_tokens(v.blocks[i], start, end)
    &&& if v.blocks[i].session_id == s.session_id {
        forall|j: int|
            0 <= j < i && (#[trigger] v.blocks[j]).session_id == s.session_id ==> clear_of_tokens(
                v.blocks[j],
                start,
                end,
            )
    } else {
        &&& s.block_ids.contains(v.blocks[i].block_id)
        &&& forall|j: int|
            0 <= j < v.blocks.len() && (#[trigger] v.blocks[j]).session_id == s.session_id
                ==> clear_of_tokens(v.blocks[j], start, end)
        &&& forall|j: int|
            0 <= j < i && s.block_ids.contains((#[trigger] v.blocks[j]).block_id)
                ==> clear_of_tokens(v.blocks[j], start, end)
    }
}

/// The block has memory that only the executor can give back: on the GPU or in a
/// buffer on the host.
pub open spec fn has_live_memory(b: PolarisBlock) -> bool {
    ||| b.state is Resident && b.gpu_phys_handle != 0
    ||| b.state is Resident && b.rm_h_client != 0 && b.rm_h_memory != 0 && b.rm_backing_length
        >= b.size_bytes
    ||| b.state is CpuOffloaded && b.cpu_buf_addr != 0
}

/// The block in the way, in the terms of the reservation and in plain ones.
proof fn lemma_in_the_way(v: PolarisView, s: SessionView, start: int, end: int)
    ensures
        tokens_are_free(v, s, start, end) ==> block_in_the_way(v, s, start, end) is None,
        forall|i: int| #[trigger]
            has_the_tokens(v, s, start, end, i) ==> block_in_the_way(v, s, start, end) == Some(i),
{
    let own = own_overlapping(s.session_id, start, end);
    let listed = listed_overlapping(s.block_ids, start, end);
    lemma_first_index(v.blocks, own);
    lemma_first_index(v.blocks, listed);
    if tokens_are_free(v, s, start, end) {
        if let Some(i) = first_index(v.blocks, own) {
            assert(own(v.blocks[i]));
        }
        if let Some(i) = first_index(v.blocks, listed) {
            assert(listed(v.blocks[i]));
        }
    }
    assert forall|i: int| #[trigger] has_the_tokens(v, s, start, end, i) implies block_in_the_way(
        v,
        s,
        start,
        end,
    ) == Some(i) by {
        if v.blocks[i].session_id == s.session_id {
            assert forall|j: int| 0 <= j < i implies !own(#[trigger] v.blocks[j]) by {}
            lemma_first_index_is(v.blocks, own, i);
        } else {
            assert forall|j: int| 0 <= j < v.blocks.len() implies !own(#[trigger] v.blocks[j]) by {}
            assert forall|j: int| 0 <= j < i implies !listed(#[trigger] v.blocks[j]) by {}
            lemma_first_index_is(v.blocks, listed, i);
        }
    }
}

// ─── Reserving ──────────────────────────────────────────────────────────────

/// A block that is reserved holds all its tokens: it starts at the address of its first
/// token and ends at that of the token after its last, and is the size of all of them.
/// It is new, private, without memory, on the session's GPU, and the session lists it;
/// nothing else changes. Unless that is left to a later access, a fault on it follows.
pub proof fn law_reserved_block_holds_all_its_tokens(
    v: PolarisView,
    arg: PolarisBlockReserveArg,
    k: int,
)
    requires
        v.daemon_attached > 0,
        session_at(v, arg.session_id, k),
        tokens_are_free(
            v,
            v.sessions[k],
            arg.token_start as int,
            arg.token_start + arg.token_count,
        ),
        v.pending_decisions.len() < 1024 || arg.flags & 16 != 0,
        v.next_block_id < u64::MAX,
        v.sessions[k].gpu_vas_base + (arg.token_start + arg.token_count)
            * v.sessions[k].bytes_per_token <= u64::MAX,
    ensures
        ({
            let s = v.sessions[k];
            let (r, w) = reserving(v, arg);
            let c = w.blocks.last();
            let (reply, fault) = r->Ok_0;
            &&& r is Ok
            &&& w.blocks == v.blocks.push(c)
            &&& c.gpu_vaddr == s.gpu_vas_base + arg.token_start * s.bytes_per_token
            &&& c.size_bytes == arg.token_count * s.bytes_per_token
            &&& c.gpu_vaddr + c.size_bytes == s.gpu_vas_base + (arg.token_start + arg.token_count)
                * s.bytes_per_token
            &&& c.token_start == arg.token_start && c.token_count == arg.token_count
            &&& c.block_id == v.next_block_id && c.session_id == arg.session_id
            &&& c.home_gpu == s.home_gpu && c.refcount == 1 && !c.flags.shared
            &&& c.state is Unmapped && c.gpu_phys_handle == 0 && c.cpu_buf_addr == 0
            &&& c.rm_h_memory == 0 && c.rm_h_client == 0 && c.rm_backing_length == 0
            &&& c.pending_decision_id == 0 && c.retry_count == 0 && c.waiter == 0
            &&& arg.phase == 2 ==> c.phase is Decode
            &&& arg.phase != 2 ==> c.phase is Prefill
            &&& reply.block_id == v.next_block_id && reply.gpu_vaddr == c.gpu_vaddr
            &&& reply.session_id == arg.session_id && reply.token_start == arg.token_start
            &&& fault is None <==> arg.flags & 16 != 0
            &&& fault matches Some(f) ==> f.gpu_id == s.home_gpu && f.fault_address == c.gpu_vaddr
                && f.va_space_token == 0
            &&& w.sessions == v.sessions.update(
                k,
                SessionView { block_ids: s.block_ids.push(v.next_block_id), ..s },
            )
            &&& w.next_block_id == v.next_block_id + 1
            &&& w.gpus == v.gpus && w.pending_decisions == v.pending_decisions && w.block_mappings
                == v.block_mappings
        }),
{
    let s = v.sessions[k];
    law_session_is_found(v, arg.session_id);
    lemma_in_the_way(v, s, arg.token_start as int, arg.token_start + arg.token_count);
    assert((arg.token_start + arg.token_count) * s.bytes_per_token == arg.token_start
        * s.bytes_per_token + arg.token_count * s.bytes_per_token) by (nonlinear_arith);
    assert(0 <= arg.token_start * s.bytes_per_token && 0 <= arg.token_count * s.bytes_per_token)
        by (nonlinear_arith)
        requires
            0 <= arg.token_start,
            0 <= arg.token_count,
            0 <= s.bytes_per_token,
    ;
}

/// Two blocks that a session reserves for tokens that have none in common have no
/// address in common.
pub proof fn law_other_tokens_other_addresses(
    s: SessionView,
    a_start: u32,
    a_count: u32,
    b_start: u32,
    b_count: u32,
)
    requires
        a_start + a_count <= b_start,
    ensures
        s.gpu_vas_base + (a_start + a_count) * s.bytes_per_token <= s.gpu_vas_base + b_start
            * s.bytes_per_token,
{
    assert((a_start + a_count) * s.bytes_per_token <= b_start * s.bytes_per_token)
        by (nonlinear_arith)
        requires
            a_start + a_count <= b_start,
            0 <= s.bytes_per_token,
    ;
}

/// Tokens that a block has already are refused, unless they are to be overwritten, and
/// nothing changes.
pub proof fn law_reserved_tokens_are_refused(
    v: PolarisView,
    arg: PolarisBlockReserveArg,
    k: int,
    i: int,
)
    requires
        v.daemon_attached > 0,
        session_at(v, arg.session_id, k),
        has_the_tokens(
            v,
            v.sessions[k],
            arg.token_start as int,
            arg.token_start + arg.token_count,
            i,
        ),
        arg.flags & 1 == 0,
    ensures
        reserving(v, arg).0 == Err::<
            (PolarisBlockReserveArg, Option<crate::fault::GpuFault>),
            i32,
        >(EINVAL),
        reserving(v, arg).1 == v,
{
    law_session_is_found(v, arg.session_id);
    lemma_in_the_way(
        v,
        v.sessions[k],
        arg.token_start as int,
        arg.token_start + arg.token_count,
    );
}

/// Tokens of a shared block that are overwritten get a block of the session's own: as
/// large as its tokens, at their addresses, to be filled from the shared memory, in the
/// place of the shared block on the session's list. The shared block loses one
/// reference and nothing else; a fault for the copy follows at once.
pub proof fn law_overwriting_shared_tokens_copies_them(
    v: PolarisView,
    arg: PolarisBlockReserveArg,
    k: int,
    i: int,
    p: int,
)
    requires
        v.daemon_attached > 0,
        session_at(v, arg.session_id, k),
        has_the_tokens(
            v,
            v.sessions[k],
            arg.token_start as int,
            arg.token_start + arg.token_count,
            i,
        ),
        arg.flags & 1 != 0,
        v.blocks[i].refcount > 1,
        v.pending_decisions.len() < 1024,
        v.next_block_id < u64::MAX,
        0 <= p < v.sessions[k].block_ids.len(),
        v.sessions[k].block_ids[p] == v.blocks[i].block_id,
        forall|j: int|
            0 <= j < p ==> #[trigger] v.sessions[k].block_ids[j] != v.blocks[i].block_id,
        v.sessions[k].gpu_vas_base + (arg.token_start + arg.token_count)
            * v.sessions[k].bytes_per_token <= u64::MAX,
    ensures
        ({
            let s = v.sessions[k];
            let b = v.blocks[i];
            let (r, w) = reserving(v, arg);
            let c = w.blocks.last();
            let (reply, fault) = r->Ok_0;
            &&& r is Ok
            &&& w.blocks.len() == v.blocks.len() + 1
            &&& c.block_id == v.next_block_id && c.session_id == arg.session_id
            &&& c.gpu_vaddr == s.gpu_vas_base + arg.token_start * s.bytes_per_token
            &&& c.size_bytes == arg.token_count * s.bytes_per_token
            &&& c.token_start == arg.token_start && c.token_count == arg.token_count
            &&& c.state is CowPending && c.refcount == 1 && c.home_gpu == s.home_gpu
            &&& c.cow_src_handle == b.gpu_phys_handle
            &&& b.gpu_phys_handle == 0 && b.rm_h_client != 0 && b.rm_h_memory != 0
                && b.rm_backing_length >= b.size_bytes ==> c.cow_src_block_id == b.block_id
            &&& b.gpu_phys_handle != 0 ==> c.cow_src_block_id == 0
            &&& w.blocks[i].refcount == b.refcount - 1
            &&& w.blocks[i] == (PolarisBlock {
                refcount: w.blocks[i].refcount,
                flags: w.blocks[i].flags,
                ..b
            })
            &&& b.refcount == 2 ==> !w.blocks[i].flags.shared
            &&& b.refcount > 2 ==> w.blocks[i].flags == b.flags
            &&& forall|j: int|
                0 <= j < v.blocks.len() && j != i ==> #[trigger] w.blocks[j] == v.blocks[j]
            &&& reply.block_id == v.next_block_id && reply.gpu_vaddr == c.gpu_vaddr
            &&& fault matches Some(f) && f.gpu_id == s.home_gpu && f.fault_address == c.gpu_vaddr
            &&& w.sessions == v.sessions.update(
                k,
                SessionView { block_ids: s.block_ids.update(p, v.next_block_id), ..s },
            )
            &&& w.gpus == v.gpus && w.pending_decisions == v.pending_decisions
        }),
{
    let s = v.sessions[k];
    law_session_is_found(v, arg.session_id);
    lemma_in_the_way(v, s, arg.token_start as int, arg.token_start + arg.token_count);
    let q = id_is(v.blocks[i].block_id);
    assert forall|j: int| 0 <= j < p implies !q(#[trigger] s.block_ids[j]) by {}
    lemma_first_index_is(s.block_ids, q, p);
    assert((arg.token_start + arg.token_count) * s.bytes_per_token == arg.token_start
        * s.bytes_per_token + arg.token_count * s.bytes_per_token) by (nonlinear_arith);
    assert(0 <= arg.token_start * s.bytes_per_token && 0 <= arg.token_count * s.bytes_per_token)
        by (nonlinear_arith)
        requires
            0 <= arg.token_start,
            0 <= arg.token_count,
            0 <= s.bytes_per_token,
    ;
}

/// Tokens of a private block that are overwritten use the block anew: it gets the new
/// tokens, their addresses and their size, and keeps its id and its state. No block
/// comes and the session's list stays. A fault follows where it is not resident and the
/// fault is not left to a later access.
pub proof fn law_overwriting_private_tokens_uses_the_block_anew(
    v: PolarisView,
    arg: PolarisBlockReserveArg,
    k: int,
    i: int,
)
    requires
        v.daemon_attached > 0,
        session_at(v, arg.session_id, k),
        has_the_tokens(
            v,
            v.sessions[k],
            arg.token_start as int,
            arg.token_start + arg.token_count,
            i,
        ),
        arg.flags & 1 != 0,
        v.blocks[i].refcount <= 1,
        v.pending_decisions.len() < 1024,
        v.sessions[k].gpu_vas_base + (arg.token_start + arg.token_count)
            * v.sessions[k].bytes_per_token <= u64::MAX,
    ensures
        ({
            let s = v.sessions[k];
            let b = v.blocks[i];
            let (r, w) = reserving(v, arg);
            let c = w.blocks[i];
            let (reply, fault) = r->Ok_0;
            &&& r is Ok
            &&& w == (PolarisView { blocks: v.blocks.update(i, c), ..v })
            &&& c.block_id == b.block_id && c.state == b.state && c.refcount == b.refcount
            &&& c.gpu_vaddr == s.gpu_vas_base + arg.token_start * s.bytes_per_token
            &&& c.size_bytes == arg.token_count * s.bytes_per_token
            &&& c.token_start == arg.token_start && c.token_count == arg.token_count
            &&& c.gpu_phys_handle == b.gpu_phys_handle && c.session_id == b.session_id
            &&& c.rm_h_memory == 0 && c.rm_h_client == 0 && c.rm_backing_length == 0
            &&& reply.block_id == b.block_id && reply.gpu_vaddr == c.gpu_vaddr
            &&& fault is None <==> b.state is Resident || arg.flags & 16 != 0
            &&& fault matches Some(f) ==> f.gpu_id == s.home_gpu && f.fault_address == c.gpu_vaddr
        }),
{
    let s = v.sessions[k];
    law_session_is_found(v, arg.session_id);
    lemma_in_the_way(v, s, arg.token_start as int, arg.token_start + arg.token_count);
    assert((arg.token_start + arg.token_count) * s.bytes_per_token == arg.token_start
        * s.bytes_per_token + arg.token_count * s.bytes_per_token) by (nonlinear_arith);
    assert(0 <= arg.token_start * s.bytes_per_token && 0 <= arg.token_count * s.bytes_per_token)
        by (nonlinear_arith)
        requires
            0 <= arg.token_start,
            0 <= arg.token_count,
            0 <= s.bytes_per_token,
    ;
}

/// Without an executor, for an unknown session, and where a fault would have to follow
/// and the queue is full, nothing is reserved.
pub proof fn law_reservations_that_are_refused(v: PolarisView, arg: PolarisBlockReserveArg, k: int)
    ensures
        v.daemon_attached == 0 ==> reserving(v, arg).0 is Err && reserving(v, arg).0->Err_0
            == ENODEV,
        v.daemon_attached > 0 && no_session(v, arg.session_id) ==> reserving(v, arg).0 is Err
            && reserving(v, arg).0->Err_0 == ENOENT,
        v.daemon_attached > 0 && session_at(v, arg.session_id, k) && tokens_are_free(
            v,
            v.sessions[k],
            arg.token_start as int,
            arg.token_start + arg.token_count,
        ) && v.pending_decisions.len() >= 1024 && arg.flags & 16 == 0 ==> reserving(v, arg).0 is Err
            && reserving(v, arg).0->Err_0 == ENOMEM,
        reserving(v, arg).0 is Err ==> reserving(v, arg).1 == v,
{
    law_session_is_found(v, arg.session_id);
    if session_at(v, arg.session_id, k) {
        lemma_in_the_way(
            v,
            v.sessions[k],
            arg.token_start as int,
            arg.token_start + arg.token_count,
        );
    }
}

// ─── Releasing ──────────────────────────────────────────────────────────────

/// Entry `i` is the first block on the session's list with exactly the tokens.
pub open spec fn is_released(
    v: PolarisView,
    arg: PolarisBlockReleaseArg,
    k: int,
    i: int,
) -> bool {
    &&& session_at(v, arg.session_id, k)
    &&& 0 <= i < v.blocks.len()
    &&& v.sessions[k].block_ids.contains(v.blocks[i].block_id)
    &&& v.blocks[i].token_start == arg.token_start && v.blocks[i].token_count == arg.token_count
    &&& forall|j: int|
        0 <= j < i && v.sessions[k].block_ids.contains((#[trigger] v.blocks[j]).block_id)
            ==> !(v.blocks[j].token_start == arg.token_start && v.blocks[j].token_count
            == arg.token_count)
}

/// The block that is released is found.
proof fn lemma_released(v: PolarisView, arg: PolarisBlockReleaseArg, k: int, i: int)
    requires
        is_released(v, arg, k, i),
    ensures
        v.find_session(arg.session_id) == Some(k),
        first_index(
            v.blocks,
            listed_exactly(v.sessions[k].block_ids, arg.token_start, arg.token_count),
        ) == Some(i),
{
    law_session_is_found(v, arg.session_id);
    let p = listed_exactly(v.sessions[k].block_ids, arg.token_start, arg.token_count);
    assert forall|j: int| 0 <= j < i implies !p(#[trigger] v.blocks[j]) by {}
    lemma_first_index_is(v.blocks, p, i);
}

/// The session's list is without the id, and no other list changes.
pub open spec fn struck_from_the_list(v: PolarisView, w: PolarisView, k: int, id: u64) -> bool {
    &&& w.sessions.len() == v.sessions.len()
    &&& forall|x: u64| #[trigger]
        w.sessions[k].block_ids.contains(x) <==> v.sessions[k].block_ids.contains(x) && x != id
    &&& forall|j: int|
        0 <= j < v.sessions.len() && j != k ==> #[trigger] w.sessions[j] == v.sessions[j]
}

/// The list of a session after one block was struck from it.
proof fn lemma_struck(v: PolarisView, w: PolarisView, session_id: u64, k: int, id: u64)
    requires
        session_at(v, session_id, k),
        w.sessions == v.sessions.update(
            k,
            SessionView {
                block_ids: v.sessions[k].block_ids.filter(id_is_not(id)),
                ..v.sessions[k]
            },
        ),
    ensures
        struck_from_the_list(v, w, k, id),
{
    lemma_filter_members(v.sessions[k].block_ids, id_is_not(id));
}

/// A session that releases what others share lets go of it: one reference less, struck
/// from its list, and gone from the addresses at which the session saw it. The block,
/// its memory and its other mappings stay.
pub proof fn law_released_shared_block_stays_with_the_others(
    v: PolarisView,
    arg: PolarisBlockReleaseArg,
    k: int,
    i: int,
)
    requires
        is_released(v, arg, k, i),
        v.blocks[i].refcount > 1,
        v.sessions[k].gpu_vas_base + arg.token_start * v.sessions[k].bytes_per_token
            + v.blocks[i].size_bytes < u64::MAX,
    ensures
        ({
            let s = v.sessions[k];
            let b = v.blocks[i];
            let start = s.gpu_vas_base + arg.token_start * s.bytes_per_token;
            let (r, w) = releasing(v, arg);
            let c = w.blocks[i];
            &&& r is Ok
            &&& w.blocks == v.blocks.update(i, c)
            &&& c.refcount == b.refcount - 1
            &&& c == (PolarisBlock { refcount: c.refcount, flags: c.flags, ..b })
            &&& b.refcount == 2 ==> !c.flags.shared
            &&& struck_from_the_list(v, w, k, b.block_id)
            &&& forall|m: PolarisBlockMapping| #[trigger]
                w.block_mappings.contains(m) ==> v.block_mappings.contains(m)
            &&& forall|m: PolarisBlockMapping| #[trigger]
                v.block_mappings.contains(m) && (m.block_id != b.block_id || m.gpu_id != s.home_gpu
                    || m.base + m.length <= start || start + b.size_bytes <= m.base)
                    ==> w.block_mappings.contains(m)
            &&& forall|m: PolarisBlockMapping| #[trigger]
                w.block_mappings.contains(m) && m.block_id == b.block_id && m.gpu_id == s.home_gpu
                    ==> m.base + m.length <= start || start + b.size_bytes <= m.base
            &&& w.gpus == v.gpus && w.pending_decisions == v.pending_decisions
        }),
{
    lemma_released(v, arg, k, i);
    let s = v.sessions[k];
    let b = v.blocks[i];
    assert(0 <= arg.token_start * s.bytes_per_token) by (nonlinear_arith)
        requires
            0 <= arg.token_start,
            0 <= s.bytes_per_token,
    ;
    let start = (s.gpu_vas_base + arg.token_start * s.bytes_per_token) as u64;
    let end = (start + b.size_bytes) as u64;
    lemma_filter_members(
        v.block_mappings,
        mapping_outside(b.block_id, s.home_gpu, start, end),
    );
    let w = releasing(v, arg).1;
    let x = PolarisView { blocks: w.blocks, block_mappings: w.block_mappings, ..v };
    assert(x.find_session(arg.session_id) == v.find_session(arg.session_id));
    lemma_struck(v, w, arg.session_id, k, b.block_id);
    assert(w.block_mappings == v.block_mappings.filter(
        mapping_outside(b.block_id, s.home_gpu, start, end),
    ));
}

/// A private block with memory that is released is freed by the executor: one decision
/// asks for it and names all its memory. Until then the block waits; the session and
/// the address spaces have already lost it.
pub proof fn law_released_memory_is_freed(
    v: PolarisView,
    arg: PolarisBlockReleaseArg,
    k: int,
    i: int,
)
    requires
        is_released(v, arg, k, i),
        v.blocks[i].refcount <= 1,
        has_live_memory(v.blocks[i]),
        arg.flags & 2 == 0,
        v.daemon_attached > 0,
        v.next_decision_id < u64::MAX,
    ensures
        v.pending_decisions.len() >= 1024 ==> releasing(v, arg) == (Err::<(), i32>(ENOMEM), v),
        v.pending_decisions.len() < 1024 ==> {
            let b = v.blocks[i];
            let (r, w) = releasing(v, arg);
            let c = w.blocks[i];
            let d = w.pending_decisions.last();
            &&& r is Ok
            &&& w.pending_decisions == v.pending_decisions.push(d)
            &&& d.op == 1 && d.block_id == b.block_id && d.decision_id == v.next_decision_id
            &&& d.src_handle == b.gpu_phys_handle && d.cpu_addr == b.cpu_buf_addr
            &&& d.src_vaddr == b.gpu_vaddr && d.size_bytes == b.size_bytes && d.gpu_id == b.home_gpu
            &&& w.blocks == v.blocks.update(i, c)
            &&& c.state is FreePending && c.pending_decision_id == d.decision_id
            &&& c.gpu_phys_handle == b.gpu_phys_handle && c.cpu_buf_addr == b.cpu_buf_addr
                && c.size_bytes == b.size_bytes
            &&& struck_from_the_list(v, w, k, b.block_id)
            &&& forall|m: PolarisBlockMapping| #[trigger]
                w.block_mappings.contains(m) <==> v.block_mappings.contains(m) && m.block_id
                    != b.block_id
            &&& w.gpus == v.gpus
        },
{
    lemma_released(v, arg, k, i);
    let b = v.blocks[i];
    if v.pending_decisions.len() < 1024 {
        let w = releasing(v, arg).1;
        lemma_filter_members(v.block_mappings, mapping_not_of(b.block_id));
        let x = PolarisView { sessions: v.sessions, ..w };
        assert(x.find_session(arg.session_id) == v.find_session(arg.session_id));
        lemma_struck(v, w, arg.session_id, k, b.block_id);
    }
}

/// A private block without memory, one whose memory its user keeps, and one that no
/// executor can be asked about, goes at once: from the table, from its mappings and from
/// the list, and the books no longer count it.
pub proof fn law_released_block_without_memory_goes(
    v: PolarisView,
    arg: PolarisBlockReleaseArg,
    k: int,
    i: int,
    g: int,
)
    requires
        is_released(v, arg, k, i),
        v.blocks[i].refcount <= 1,
        !(v.blocks[i].state is FreePending),
        !has_live_memory(v.blocks[i]) || arg.flags & 2 != 0 || v.daemon_attached == 0,
        gpu_at(v, v.blocks[i].home_gpu, g),
    ensures
        ({
            let b = v.blocks[i];
            let (r, w) = releasing(v, arg);
            let o = v.gpus[g];
            let h = w.gpus[g];
            &&& r is Ok
            &&& w.blocks == v.blocks.remove(i)
            &&& struck_from_the_list(v, w, k, b.block_id)
            &&& forall|m: PolarisBlockMapping| #[trigger]
                w.block_mappings.contains(m) <==> v.block_mappings.contains(m) && m.block_id
                    != b.block_id
            &&& w.pending_decisions == v.pending_decisions
            &&& w.gpus == v.gpus.update(g, h)
            &&& b.state is Resident ==> h.used_bytes == (if o.used_bytes >= b.size_bytes {
                o.used_bytes - b.size_bytes
            } else {
                0
            }) && h.cpu_pool_used_bytes == o.cpu_pool_used_bytes
            &&& !(b.state is Resident) && b.cpu_buf_addr != 0 ==> h.cpu_pool_used_bytes == (
            if o.cpu_pool_used_bytes >= b.size_bytes {
                o.cpu_pool_used_bytes - b.size_bytes
            } else {
                0
            }) && h.used_bytes == o.used_bytes
            &&& !(b.state is Resident) && b.cpu_buf_addr == 0 ==> h == o
        }),
{
    lemma_released(v, arg, k, i);
    law_gpu_is_found(v, v.blocks[i].home_gpu);
    let b = v.blocks[i];
    let w = releasing(v, arg).1;
    lemma_filter_members(v.block_mappings, mapping_not_of(b.block_id));
    let x = PolarisView { sessions: v.sessions, ..w };
    assert(x.find_session(arg.session_id) == v.find_session(arg.session_id));
    lemma_struck(v, w, arg.session_id, k, b.block_id);
    assert(v.gpus.update(g, v.gpus[g]) =~= v.gpus);
}

/// What is not on the session's list cannot be released, and what is being freed cannot
/// be released again.
pub proof fn law_releases_that_are_refused(
    v: PolarisView,
    arg: PolarisBlockReleaseArg,
    k: int,
    i: int,
)
    ensures
        no_session(v, arg.session_id) ==> releasing(v, arg) == (Err::<(), i32>(ENOENT), v),
        session_at(v, arg.session_id, k) && (forall|j: int|
            0 <= j < v.blocks.len() && (#[trigger] v.blocks[j]).token_start == arg.token_start
                && v.blocks[j].token_count == arg.token_count
                ==> !v.sessions[k].block_ids.contains(v.blocks[j].block_id)) ==> releasing(v, arg)
            == (Err::<(), i32>(ENOENT), v),
        is_released(v, arg, k, i) && v.blocks[i].refcount <= 1 && v.blocks[i].state is FreePending
            ==> releasing(v, arg) == (Err::<(), i32>(EBUSY), v),
{
    law_session_is_found(v, arg.session_id);
    if is_released(v, arg, k, i) {
        lemma_released(v, arg, k, i);
    }
    if session_at(v, arg.session_id, k) {
        lemma_first_index(
            v.blocks,
            listed_exactly(v.sessions[k].block_ids, arg.token_start, arg.token_count),
        );
    }
}

// ─── Touching ───────────────────────────────────────────────────────────────

/// A touch of tokens makes the time now the last use of exactly those blocks that hold
/// one of them and that the session reserved or lists. Nothing else changes.
pub proof fn law_touch_is_the_last_use(v: PolarisView, arg: PolarisBlockTouchArg, now: u64, i: int)
    requires
        inv(v),
        0 <= i < v.blocks.len(),
    ensures
        ({
            let b = v.blocks[i];
            let w = touching(v, arg, now);
            let its = b.session_id == arg.session_id || exists|k: int| #[trigger]
                session_at(v, arg.session_id, k) && v.sessions[k].block_ids.contains(b.block_id);
            let held = arg.token_start < b.token_start + b.token_count && b.token_start
                < arg.token_start + arg.token_count;
            &&& w == (PolarisView { blocks: w.blocks, ..v })
            &&& w.blocks.len() == v.blocks.len()
            &&& its && held ==> w.blocks[i] == (PolarisBlock { last_touch_ns: now, ..b })
            &&& !(its && held) ==> w.blocks[i] == b
        }),
{
    law_session_is_found(v, arg.session_id);
    crate::block_laws::law_touch_marks_what_it_is_about(v, arg, now, i);
}

// ─── Spilling ───────────────────────────────────────────────────────────────

/// A resident block that is to be spilled is asked to go to the host: one decision names
/// its memory, its address and its size, and the block waits for it.
pub proof fn law_spilled_block_is_asked_to_go(v: PolarisView, block_id: u64, i: int)
    requires
        block_id != 0,
        block_at(v, block_id, i),
        v.blocks[i].state is Resident,
        has_live_memory(v.blocks[i]),
        v.pending_decisions.len() < 1024,
        v.next_decision_id < u64::MAX,
    ensures
        ({
            let b = v.blocks[i];
            let (r, w) = spilling(v, block_id);
            let c = w.blocks[i];
            let d = w.pending_decisions.last();
            &&& r == Ok::<u64, i32>(v.next_decision_id)
            &&& w.pending_decisions == v.pending_decisions.push(d)
            &&& d.decision_id == v.next_decision_id && w.next_decision_id == v.next_decision_id + 1
            &&& d.op == 4 && d.block_id == block_id && d.gpu_id == b.home_gpu
            &&& d.src_handle == b.gpu_phys_handle && d.src_vaddr == b.gpu_vaddr && d.size_bytes
                == b.size_bytes
            &&& w.blocks == v.blocks.update(i, c)
            &&& c == (PolarisBlock {
                state: crate::abi::PolarisBlockState::OffloadPending,
                pending_decision_id: d.decision_id,
                pending_fault_id: 0,
                pending_generation: 0,
                ..b
            })
            &&& w.sessions == v.sessions && w.gpus == v.gpus && w.block_mappings
                == v.block_mappings
        }),
{
    law_block_is_found(v, block_id);
}

/// A block in host memory is spilled already; what has no memory on the GPU, is on its
/// way, or finds the queue full is refused. None of it changes a table but for the
/// decision numbers.
pub proof fn law_spills_that_ask_for_nothing(v: PolarisView, block_id: u64, i: int)
    ensures
        spilling(v, 0) == (Err::<u64, i32>(EINVAL), v),
        block_id != 0 && no_block(v, block_id) ==> spilling(v, block_id) == (
            Err::<u64, i32>(ENOENT),
            v,
        ),
        block_id != 0 && block_at(v, block_id, i) ==> {
            let s = v.blocks[i].state;
            let (r, w) = spilling(v, block_id);
            &&& s is CpuOffloaded ==> r == Ok::<u64, i32>(0) && w == v
            &&& s is Unmapped || s is Evicted ==> r == Err::<u64, i32>(ENOENT) && w == v
            &&& s is AllocPending || s is OffloadPending || s is ReloadPending || s is CowPending
                || s is FreePending ==> r == Err::<u64, i32>(EBUSY) && w == v
            &&& s is Resident && v.pending_decisions.len() >= 1024 ==> r == Err::<u64, i32>(ENOMEM)
                && w == v
            &&& s is Resident && v.pending_decisions.len() < 1024 && !has_live_memory(v.blocks[i])
                ==> r == Err::<u64, i32>(ENOENT) && w.blocks == v.blocks && w.pending_decisions
                == v.pending_decisions
        },
{
    law_block_is_found(v, block_id);
}

} // verus!
