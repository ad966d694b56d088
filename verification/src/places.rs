//! Where the tables hold a record: the first entry with an id is the one meant.

use crate::seqs::{lemma_first_index, lemma_first_index_is};
use crate::state::{block_is, gpu_is, session_is, PolarisView};
use vstd::prelude::*;

verus! {

/// Entry `i` is the first block with the id.
pub open spec fn block_at(v: PolarisView, id: u64, i: int) -> bool {
    &&& 0 <= i < v.blocks.len()
    &&& v.blocks[i].block_id == id
    &&& forall|j: int| 0 <= j < i ==> (#[trigger] v.blocks[j]).block_id != id
}

/// Entry `g` is the first GPU with the id.
pub open spec fn gpu_at(v: PolarisView, id: u32, g: int) -> bool {
    &&& 0 <= g < v.gpus.len()
    &&& v.gpus[g].gpu_id == id
    &&& forall|j: int| 0 <= j < g ==> (#[trigger] v.gpus[j]).gpu_id != id
}

/// Entry `k` is the first session with the id.
pub open spec fn session_at(v: PolarisView, id: u64, k: int) -> bool {
    &&& 0 <= k < v.sessions.len()
    &&& v.sessions[k].session_id == id
    &&& forall|j: int| 0 <= j < k ==> (#[trigger] v.sessions[j]).session_id != id
}

/// No block has the id.
pub open spec fn no_block(v: PolarisView, id: u64) -> bool {
    forall|j: int| 0 <= j < v.blocks.len() ==> (#[trigger] v.blocks[j]).block_id != id
}

/// No GPU has the id.
pub open spec fn no_gpu(v: PolarisView, id: u32) -> bool {
    forall|j: int| 0 <= j < v.gpus.len() ==> (#[trigger] v.gpus[j]).gpu_id != id
}

/// No session has the id.
pub open spec fn no_session(v: PolarisView, id: u64) -> bool {
    forall|j: int| 0 <= j < v.sessions.len() ==> (#[trigger] v.sessions[j]).session_id != id
}

/// A block is found where the table holds it.
pub proof fn law_block_is_found(v: PolarisView, id: u64)
    ensures
        forall|i: int| #[trigger] block_at(v, id, i) ==> v.find_block(id) == Some(i),
        v.find_block(id) matches Some(i) ==> block_at(v, id, i),
        v.find_block(id) is None <==> no_block(v, id),
{
    lemma_first_index(v.blocks, block_is(id));
    assert forall|i: int| #[trigger] block_at(v, id, i) implies v.find_block(id) == Some(i) by {
        lemma_first_index_is(v.blocks, block_is(id), i);
    }
    if let Some(i) = v.find_block(id) {
        assert forall|j: int| 0 <= j < i implies (#[trigger] v.blocks[j]).block_id != id by {
            assert(!block_is(id)(v.blocks[j]));
        }
    } else {
        assert forall|j: int| 0 <= j < v.blocks.len() implies (
        #[trigger] v.blocks[j]).block_id != id by {
            assert(!block_is(id)(v.blocks[j]));
        }
    }
}

/// A GPU is found where the table holds it.
pub proof fn law_gpu_is_found(v: PolarisView, id: u32)
    ensures
        forall|g: int| #[trigger] gpu_at(v, id, g) ==> v.find_gpu(id) == Some(g),
        v.find_gpu(id) matches Some(g) ==> gpu_at(v, id, g),
        v.find_gpu(id) is None <==> no_gpu(v, id),
{
    lemma_first_index(v.gpus, gpu_is(id));
    assert forall|g: int| #[trigger] gpu_at(v, id, g) implies v.find_gpu(id) == Some(g) by {
        lemma_first_index_is(v.gpus, gpu_is(id), g);
    }
    if let Some(g) = v.find_gpu(id) {
        assert forall|j: int| 0 <= j < g implies (#[trigger] v.gpus[j]).gpu_id != id by {
            assert(!gpu_is(id)(v.gpus[j]));
        }
    } else {
        assert forall|j: int| 0 <= j < v.gpus.len() implies (#[trigger] v.gpus[j]).gpu_id != id by {
            assert(!gpu_is(id)(v.gpus[j]));
        }
    }
}

/// A session is found where the table holds it.
pub proof fn law_session_is_found(v: PolarisView, id: u64)
    ensures
        forall|k: int| #[trigger] session_at(v, id, k) ==> v.find_session(id) == Some(k),
        v.find_session(id) matches Some(k) ==> session_at(v, id, k),
        v.find_session(id) is None <==> no_session(v, id),
{
    lemma_first_index(v.sessions, session_is(id));
    assert forall|k: int| #[trigger] session_at(v, id, k) implies v.find_session(id) == Some(
        k,
    ) by {
        lemma_first_index_is(v.sessions, session_is(id), k);
    }
    if let Some(k) = v.find_session(id) {
        assert forall|j: int| 0 <= j < k implies (#[trigger] v.sessions[j]).session_id != id by {
            assert(!session_is(id)(v.sessions[j]));
        }
    } else {
        assert forall|j: int| 0 <= j < v.sessions.len() implies (
        #[trigger] v.sessions[j]).session_id != id by {
            assert(!session_is(id)(v.sessions[j]));
        }
    }
}

} // verus!
