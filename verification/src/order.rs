//! What every request keeps true of the tables.

use crate::state::{initial_view, PolarisView};
use crate::types::{
    PolarisBlock, PolarisBlockMapping, PolarisFastVaSpaceSlot, PolarisGpu, PolarisStaticBlock,
    PolarisVaSpace, SessionView,
};
use vstd::prelude::*;

verus! {

/// Blocks have ids of their own that were given out, at least one reference,
/// and the mark of being shared exactly where there are more.
pub open spec fn blocks_wf(blocks: Seq<PolarisBlock>, next: u64) -> bool {
    &&& forall|i: int|
        0 <= i < blocks.len() ==> {
            let b = #[trigger] blocks[i];
            &&& 0 < b.block_id < next
            &&& b.refcount >= 1
            &&& b.flags.shared == (b.refcount > 1)
        }
    &&& forall|i: int, j: int|
        0 <= i < j < blocks.len() ==> (#[trigger] blocks[i]).block_id != (
        #[trigger] blocks[j]).block_id
}

/// Sessions have ids of their own that were given out.
pub open spec fn sessions_wf(sessions: Seq<SessionView>, next: u64) -> bool {
    &&& forall|i: int|
        0 <= i < sessions.len() ==> 0 < (#[trigger] sessions[i]).session_id < next
    &&& forall|i: int, j: int|
        0 <= i < j < sessions.len() ==> (#[trigger] sessions[i]).session_id != (
        #[trigger] sessions[j]).session_id
}

/// GPUs have ids of their own.
pub open spec fn gpus_wf(gpus: Seq<PolarisGpu>) -> bool {
    forall|i: int, j: int|
        0 <= i < j < gpus.len() ==> (#[trigger] gpus[i]).gpu_id != (#[trigger] gpus[j]).gpu_id
}

/// Two records name the same address space.
pub open spec fn same_space(s: PolarisVaSpace, gpu_id: u32, client: u64, token: u64) -> bool {
    s.gpu_id == gpu_id && s.rm_client_token == client && s.va_space_token == token
}

/// The address space is registered.
pub open spec fn space_known(spaces: Seq<PolarisVaSpace>, gpu_id: u32, client: u64, token: u64) -> bool {
    exists|i: int| 0 <= i < spaces.len() && same_space(#[trigger] spaces[i], gpu_id, client, token)
}

/// The block is in the table.
pub open spec fn block_known(blocks: Seq<PolarisBlock>, id: u64) -> bool {
    exists|i: int| 0 <= i < blocks.len() && (#[trigger] blocks[i]).block_id == id
}

/// Every mapping is one of a block in the table, in a registered address space.
pub open spec fn mappings_wf(
    ms: Seq<PolarisBlockMapping>,
    blocks: Seq<PolarisBlock>,
    spaces: Seq<PolarisVaSpace>,
) -> bool {
    forall|k: int|
        0 <= k < ms.len() ==> {
            let m = #[trigger] ms[k];
            block_known(blocks, m.block_id) && space_known(
                spaces,
                m.gpu_id,
                m.rm_client_token,
                m.va_space_token,
            )
        }
}

/// A mapping that is mapped was last mapped where it is.
pub open spec fn space_remembered(m: PolarisBlockMapping) -> bool {
    m.last_gpu_va_space_ptr != 0 ==> m.copy_gpu_va_space_ptr == m.last_gpu_va_space_ptr
}

/// Every mapping remembers where it is mapped.
pub open spec fn spaces_remembered(ms: Seq<PolarisBlockMapping>) -> bool {
    forall|k: int| 0 <= k < ms.len() ==> space_remembered(#[trigger] ms[k])
}

/// Every static block is in a registered address space.
pub open spec fn statics_wf(ss: Seq<PolarisStaticBlock>, spaces: Seq<PolarisVaSpace>) -> bool {
    forall|k: int|
        0 <= k < ss.len() ==> {
            let s = #[trigger] ss[k];
            space_known(spaces, s.gpu_id, s.rm_client_token, s.va_space_token)
        }
}

/// The slot is that of the address space, with its window.
pub open spec fn slot_of(t: PolarisFastVaSpaceSlot, s: PolarisVaSpace) -> bool {
    &&& t.gpu_id == s.gpu_id
    &&& t.rm_client_token == s.rm_client_token
    &&& t.va_space_token == s.va_space_token
    &&& t.managed_base == s.managed_base
    &&& t.managed_length == s.managed_length
}

/// The address space has a slot.
#[verifier::opaque]
pub open spec fn has_slot(slots: Seq<PolarisFastVaSpaceSlot>, s: PolarisVaSpace) -> bool {
    exists|j: int| 0 <= j < slots.len() && #[trigger] slot_of(slots[j], s)
}

/// The slot has an address space.
#[verifier::opaque]
pub open spec fn has_space(spaces: Seq<PolarisVaSpace>, t: PolarisFastVaSpaceSlot) -> bool {
    exists|i: int| 0 <= i < spaces.len() && #[trigger] slot_of(t, spaces[i])
}

/// Address spaces are distinct and named, and the lookup table holds exactly
/// them, each once.
pub open spec fn spaces_wf(spaces: Seq<PolarisVaSpace>, slots: Seq<PolarisFastVaSpaceSlot>) -> bool {
    &&& forall|i: int| 0 <= i < spaces.len() ==> (#[trigger] spaces[i]).va_space_token != 0
    &&& forall|i: int, j: int|
        0 <= i < j < spaces.len() ==> !same_space(
            #[trigger] spaces[i],
            (#[trigger] spaces[j]).gpu_id,
            spaces[j].rm_client_token,
            spaces[j].va_space_token,
        )
    &&& forall|i: int| 0 <= i < spaces.len() ==> has_slot(slots, #[trigger] spaces[i])
    &&& forall|j: int|
        0 <= j < slots.len() && (#[trigger] slots[j]).va_space_token != 0 ==> has_space(
            spaces,
            slots[j],
        )
    &&& forall|i: int, j: int|
        0 <= i < j < slots.len() && (#[trigger] slots[i]).va_space_token != 0 ==> !(slots[i].gpu_id
            == (#[trigger] slots[j]).gpu_id && slots[i].rm_client_token == slots[j].rm_client_token
            && slots[i].va_space_token == slots[j].va_space_token)
}

/// Fewer mappings remember as well where they are mapped.
pub proof fn lemma_fewer_mappings(ms: Seq<PolarisBlockMapping>, left: Seq<PolarisBlockMapping>)
    requires
        spaces_remembered(ms),
        forall|m: PolarisBlockMapping| #[trigger] left.contains(m) ==> ms.contains(m),
    ensures
        spaces_remembered(left),
{
    assert forall|k: int| 0 <= k < left.len() implies space_remembered(#[trigger] left[k]) by {
        assert(left.contains(left[k]));
        let j = choose|j: int| 0 <= j < ms.len() && ms[j] == left[k];
        assert(space_remembered(ms[j]));
    }
}

/// What every request keeps true.
pub open spec fn inv(v: PolarisView) -> bool {
    &&& v.next_block_id >= 1
    &&& v.next_session_id >= 1
    &&& blocks_wf(v.blocks, v.next_block_id)
    &&& sessions_wf(v.sessions, v.next_session_id)
    &&& gpus_wf(v.gpus)
    &&& mappings_wf(v.block_mappings, v.blocks, v.va_spaces)
    &&& spaces_remembered(v.block_mappings)
    &&& statics_wf(v.static_blocks, v.va_spaces)
    &&& spaces_wf(v.va_spaces, v.fast_va_spaces)
}

/// The tables start out in order.
pub proof fn law_initial_state_is_in_order()
    ensures
        inv(initial_view()),
{
}

// ─── Requests that move nothing ─────────────────────────────────────────────

/// The blocks are the same ones, with the same references.
pub open spec fn same_blocks(a: Seq<PolarisBlock>, b: Seq<PolarisBlock>) -> bool {
    &&& a.len() == b.len()
    &&& forall|i: int|
        0 <= i < a.len() ==> (#[trigger] b[i]).block_id == a[i].block_id && b[i].refcount
            == a[i].refcount && b[i].flags == a[i].flags
}

/// The mappings are at the same places.
pub open spec fn same_mappings(a: Seq<PolarisBlockMapping>, b: Seq<PolarisBlockMapping>) -> bool {
    &&& a.len() == b.len()
    &&& forall|i: int|
        0 <= i < a.len() ==> (#[trigger] b[i]).block_id == a[i].block_id && b[i].gpu_id
            == a[i].gpu_id && b[i].rm_client_token == a[i].rm_client_token && b[i].va_space_token
            == a[i].va_space_token && (space_remembered(a[i]) ==> space_remembered(b[i]))
}

/// The GPUs are the same ones.
pub open spec fn same_gpus(a: Seq<PolarisGpu>, b: Seq<PolarisGpu>) -> bool {
    a.len() == b.len() && forall|i: int|
        0 <= i < a.len() ==> (#[trigger] b[i]).gpu_id == a[i].gpu_id
}

/// The sessions are the same ones.
pub open spec fn same_sessions(a: Seq<SessionView>, b: Seq<SessionView>) -> bool {
    a.len() == b.len() && forall|i: int|
        0 <= i < a.len() ==> (#[trigger] b[i]).session_id == a[i].session_id
}

/// Nothing came, went or changed hands between two states.
pub open spec fn same_shape(v: PolarisView, w: PolarisView) -> bool {
    &&& same_blocks(v.blocks, w.blocks)
    &&& same_mappings(v.block_mappings, w.block_mappings)
    &&& same_gpus(v.gpus, w.gpus)
    &&& same_sessions(v.sessions, w.sessions)
    &&& w.static_blocks == v.static_blocks
    &&& w.va_spaces == v.va_spaces
    &&& w.fast_va_spaces == v.fast_va_spaces
    &&& v.next_block_id <= w.next_block_id
    &&& v.next_session_id <= w.next_session_id
}

/// Where nothing came, went or changed hands, the tables stay in order.
pub proof fn lemma_same_shape(v: PolarisView, w: PolarisView)
    requires
        inv(v),
        same_shape(v, w),
    ensures
        inv(w),
{
    assert forall|k: int| 0 <= k < w.block_mappings.len() implies {
        let m = #[trigger] w.block_mappings[k];
        block_known(w.blocks, m.block_id) && space_known(
            w.va_spaces,
            m.gpu_id,
            m.rm_client_token,
            m.va_space_token,
        )
    } by {
        let m = v.block_mappings[k];
        let i = choose|i: int| 0 <= i < v.blocks.len() && (#[trigger] v.blocks[i]).block_id == m.block_id;
        assert(w.blocks[i].block_id == m.block_id);
    }
}

} // verus!
