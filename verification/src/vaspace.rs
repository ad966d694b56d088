//! Address spaces of workers, what appears in them, and the memory behind it.

use crate::abi::{
    PolarisBlockState, PolarisProbeRmCopyArg, PolarisProbeRmPhysArg, PolarisRegisterBlockBackingArg,
    PolarisRegisterBlockMappingArg, PolarisRegisterStaticBlockArg, PolarisRegisterVaSpaceArg,
    PolarisRmCopyArg, PolarisUnmapStaticBlockArg, PolarisUnregisterVaSpaceArg,
    POLARIS_RM_COPY_FROM_CPU, POLARIS_RM_COPY_TO_CPU,
};
use crate::device::{DeviceView, PolarisDevice};
use crate::errno::{EBUSY, EEXIST, EINVAL, ENOENT, ENOMEM, EPERM};
use crate::num::sat_sub;
use crate::seqs::{any, as_index, find, first_index, retain};
use crate::state::{
    free_static_slot, free_va_slot, gpu_is, static_slot_is, PolarisInner, PolarisView,
};
use crate::types::{
    PolarisBlock, PolarisBlockMapping, PolarisFastStaticBlockSlot, PolarisFastVaSpaceSlot,
    PolarisMappingUnmap, PolarisRmPhysProbeTarget, PolarisStaticBlock, PolarisVaSpace,
};
use vstd::prelude::*;

verus! {

// ─── Address spaces ─────────────────────────────────────────────────────────

/// Address spaces with the key.
pub open spec fn va_space_is(gpu_id: u32, client: u64, token: u64) -> spec_fn(PolarisVaSpace) -> bool {
    |s: PolarisVaSpace|
        s.gpu_id == gpu_id && s.rm_client_token == client && s.va_space_token == token
}

/// Static blocks of other address spaces.
pub open spec fn static_outside(gpu_id: u32, client: u64, token: u64) -> spec_fn(
    PolarisStaticBlock,
) -> bool {
    |s: PolarisStaticBlock|
        !(s.gpu_id == gpu_id && s.rm_client_token == client && s.va_space_token == token)
}

/// Mappings in other address spaces.
pub open spec fn mapping_elsewhere(gpu_id: u32, client: u64, token: u64) -> spec_fn(
    PolarisBlockMapping,
) -> bool {
    |m: PolarisBlockMapping|
        !(m.gpu_id == gpu_id && m.rm_client_token == client && m.va_space_token == token)
}

/// Other address spaces.
pub open spec fn va_space_is_not(gpu_id: u32, client: u64, token: u64) -> spec_fn(
    PolarisVaSpace,
) -> bool {
    |s: PolarisVaSpace|
        !(s.gpu_id == gpu_id && s.rm_client_token == client && s.va_space_token == token)
}

/// Slots of an address space.
pub open spec fn va_slot_is(gpu_id: u32, client: u64, token: u64) -> spec_fn(
    PolarisFastVaSpaceSlot,
) -> bool {
    |s: PolarisFastVaSpaceSlot|
        s.va_space_token == token && s.gpu_id == gpu_id && s.rm_client_token == client
}

/// Free slots.
pub open spec fn va_slot_free() -> spec_fn(PolarisFastVaSpaceSlot) -> bool {
    |s: PolarisFastVaSpaceSlot| s.va_space_token == 0
}

/// Free slots.
pub open spec fn static_slot_free() -> spec_fn(PolarisFastStaticBlockSlot) -> bool {
    |s: PolarisFastStaticBlockSlot| s.va_space_token == 0
}

/// The lookup table with an address space in it: in the slot that it has, else
/// in the first free one, if any.
pub open spec fn va_slot_taken(
    slots: Seq<PolarisFastVaSpaceSlot>,
    gpu_id: u32,
    client: u64,
    token: u64,
    base: u64,
    length: u64,
) -> Result<Seq<PolarisFastVaSpaceSlot>, i32> {
    if token == 0 || length == 0 {
        Err(EINVAL)
    } else {
        match first_index(slots, va_slot_is(gpu_id, client, token)) {
            Some(i) => Ok(
                slots.update(
                    i,
                    PolarisFastVaSpaceSlot {
                        managed_base: base,
                        managed_length: length,
                        ..slots[i]
                    },
                ),
            ),
            None => match first_index(slots, va_slot_free()) {
                Some(i) => Ok(
                    slots.update(
                        i,
                        PolarisFastVaSpaceSlot {
                            gpu_id,
                            rm_client_token: client,
                            va_space_token: token,
                            managed_base: base,
                            managed_length: length,
                        },
                    ),
                ),
                None => Err(ENOMEM),
            },
        }
    }
}

/// The lookup table without an address space.
pub open spec fn va_slot_freed(
    slots: Seq<PolarisFastVaSpaceSlot>,
    gpu_id: u32,
    client: u64,
    token: u64,
) -> Seq<PolarisFastVaSpaceSlot> {
    if token == 0 {
        slots
    } else {
        match first_index(slots, va_slot_is(gpu_id, client, token)) {
            Some(i) => slots.update(i, free_va_slot()),
            None => slots,
        }
    }
}

/// The lookup table without the static blocks of an address space.
pub open spec fn static_slots_freed_in(
    slots: Seq<PolarisFastStaticBlockSlot>,
    gpu_id: u32,
    client: u64,
    token: u64,
) -> Seq<PolarisFastStaticBlockSlot> {
    if token == 0 {
        slots
    } else {
        Seq::new(
            slots.len(),
            |i: int|
                if slots[i].va_space_token == token && slots[i].gpu_id == gpu_id
                    && slots[i].rm_client_token == client {
                    free_static_slot()
                } else {
                    slots[i]
                },
        )
    }
}

/// The state without an address space and all that is in it.
pub open spec fn without_contents(v: PolarisView, gpu_id: u32, client: u64, token: u64) -> PolarisView {
    PolarisView {
        static_blocks: v.static_blocks.filter(static_outside(gpu_id, client, token)),
        block_mappings: v.block_mappings.filter(mapping_elsewhere(gpu_id, client, token)),
        fast_va_spaces: va_slot_freed(v.fast_va_spaces, gpu_id, client, token),
        fast_static_blocks: static_slots_freed_in(v.fast_static_blocks, gpu_id, client, token),
        ..v
    }
}

/// What comes of announcing an address space. An open handle announces at most
/// one. Where the lookup table is full, nothing is entered anywhere.
pub open spec fn announcing(
    v: PolarisView,
    d: DeviceView,
    arg: PolarisRegisterVaSpaceArg,
    pid: i32,
) -> (Result<(), i32>, PolarisView, DeviceView) {
    if arg.va_space_token == 0 || arg.managed_length == 0 {
        (Err(EINVAL), v, d)
    } else if d.v4_token != 0 {
        (Err(EBUSY), v, d)
    } else if !any(v.gpus, gpu_is(arg.gpu_id)) {
        (Err(ENOENT), v, d)
    } else if any(v.va_spaces, va_space_is(arg.gpu_id, arg.rm_client_token, arg.va_space_token)) {
        (Err(EEXIST), v, d)
    } else {
        match va_slot_taken(
            v.fast_va_spaces,
            arg.gpu_id,
            arg.rm_client_token,
            arg.va_space_token,
            arg.managed_base,
            arg.managed_length,
        ) {
            Err(e) => (Err(e), v, d),
            Ok(slots) => (
                Ok(()),
                PolarisView {
                    va_spaces: v.va_spaces.push(
                        PolarisVaSpace {
                            gpu_id: arg.gpu_id,
                            pid,
                            rm_client_token: arg.rm_client_token,
                            va_space_token: arg.va_space_token,
                            managed_base: arg.managed_base,
                            managed_length: arg.managed_length,
                        },
                    ),
                    fast_va_spaces: slots,
                    ..v
                },
                DeviceView {
                    v4_gpu: arg.gpu_id,
                    v4_client: arg.rm_client_token,
                    v4_token: arg.va_space_token,
                    ..d
                },
            ),
        }
    }
}

/// What comes of withdrawing an address space: only the handle that announced
/// it may, and all that is in it goes with it.
pub open spec fn withdrawing(v: PolarisView, d: DeviceView, arg: PolarisUnregisterVaSpaceArg) -> (
    Result<(), i32>,
    PolarisView,
    DeviceView,
) {
    match first_index(
        v.va_spaces,
        va_space_is(arg.gpu_id, arg.rm_client_token, arg.va_space_token),
    ) {
        None => (Err(ENOENT), v, d),
        Some(i) => if !(d.v4_gpu == arg.gpu_id && d.v4_client == arg.rm_client_token && d.v4_token
            == arg.va_space_token) {
            (Err(EPERM), v, d)
        } else {
            (
                Ok(()),
                without_contents(
                    PolarisView { va_spaces: v.va_spaces.remove(i), ..v },
                    arg.gpu_id,
                    arg.rm_client_token,
                    arg.va_space_token,
                ),
                DeviceView { v4_gpu: 0, v4_client: 0, v4_token: 0, ..d },
            )
        },
    }
}

// ─── Static blocks ──────────────────────────────────────────────────────────

/// Static blocks at a place.
pub open spec fn static_block_at(gpu_id: u32, client: u64, token: u64, base: u64) -> spec_fn(
    PolarisStaticBlock,
) -> bool {
    |s: PolarisStaticBlock|
        s.gpu_id == gpu_id && s.va_space_token == token && s.rm_client_token == client && s.base
            == base
}

/// A range lies in the managed window of an address space.
pub open spec fn in_window(s: PolarisVaSpace, base: u64, length: u64) -> bool {
    &&& base + length <= u64::MAX
    &&& s.managed_base + s.managed_length <= u64::MAX
    &&& s.managed_base <= base
    &&& base + length <= s.managed_base + s.managed_length
}

/// The slot of a static block.
pub open spec fn static_slot_of(b: PolarisStaticBlock, ptr: u64) -> PolarisFastStaticBlockSlot {
    PolarisFastStaticBlockSlot {
        gpu_id: b.gpu_id,
        rm_client_token: b.rm_client_token,
        rm_control_fd: b.rm_control_fd,
        h_client: b.h_client,
        h_memory: b.h_memory,
        va_space_token: b.va_space_token,
        base: b.base,
        length: b.length,
        offset: b.offset,
        last_gpu_va_space_ptr: ptr,
    }
}

/// The lookup table with a static block in it: in the slot that it has, else in
/// the first free one, if any.
pub open spec fn static_slot_taken(slots: Seq<PolarisFastStaticBlockSlot>, b: PolarisStaticBlock) -> Result<
    Seq<PolarisFastStaticBlockSlot>,
    i32,
> {
    if b.va_space_token == 0 || b.length == 0 || b.h_memory == 0 {
        Err(EINVAL)
    } else {
        match first_index(
            slots,
            static_slot_is(b.gpu_id, b.rm_client_token, b.va_space_token, b.base),
        ) {
            Some(i) => Ok(slots.update(i, static_slot_of(b, slots[i].last_gpu_va_space_ptr))),
            None => match first_index(slots, static_slot_free()) {
                Some(i) => Ok(slots.update(i, static_slot_of(b, slots[i].last_gpu_va_space_ptr))),
                None => Err(ENOMEM),
            },
        }
    }
}

/// The static block that a request describes.
pub open spec fn described_static_block(arg: PolarisRegisterStaticBlockArg) -> PolarisStaticBlock {
    PolarisStaticBlock {
        gpu_id: arg.gpu_id,
        rm_client_token: arg.rm_client_token,
        va_space_token: arg.va_space_token,
        base: arg.base,
        length: arg.length,
        offset: arg.offset,
        rm_control_fd: arg.rm_control_fd,
        h_client: arg.h_client,
        h_memory: arg.h_memory,
    }
}

/// What comes of announcing a static block.
pub open spec fn placing_static_block(v: PolarisView, arg: PolarisRegisterStaticBlockArg) -> (Result<
    (),
    i32,
>, PolarisView) {
    if arg.va_space_token == 0 || arg.length == 0 || arg.h_memory == 0 {
        (Err(EINVAL), v)
    } else {
        match first_index(
            v.va_spaces,
            va_space_is(arg.gpu_id, arg.rm_client_token, arg.va_space_token),
        ) {
            None => (Err(ENOENT), v),
            Some(i) => if !in_window(v.va_spaces[i], arg.base, arg.length) {
                (Err(EINVAL), v)
            } else if any(
                v.static_blocks,
                static_block_at(arg.gpu_id, arg.rm_client_token, arg.va_space_token, arg.base),
            ) {
                (Err(EEXIST), v)
            } else {
                match static_slot_taken(v.fast_static_blocks, described_static_block(arg)) {
                    Err(e) => (Err(e), v),
                    Ok(slots) => (
                        Ok(()),
                        PolarisView {
                            static_blocks: v.static_blocks.push(described_static_block(arg)),
                            fast_static_blocks: slots,
                            ..v
                        },
                    ),
                }
            },
        }
    }
}

/// The address space in which a static block was last mapped: what is to be
/// unmapped, or why nothing is.
pub open spec fn static_block_to_unmap(v: PolarisView, arg: PolarisUnmapStaticBlockArg) -> Result<
    u64,
    i32,
> {
    if arg.va_space_token == 0 || arg.length == 0 {
        Err(EINVAL)
    } else {
        match first_index(
            v.static_blocks,
            static_block_at(arg.gpu_id, arg.rm_client_token, arg.va_space_token, arg.base),
        ) {
            None => Err(ENOENT),
            Some(i) => if arg.length > v.static_blocks[i].length {
                Err(EINVAL)
            } else {
                match first_index(
                    v.fast_static_blocks,
                    static_slot_is(arg.gpu_id, arg.rm_client_token, arg.va_space_token, arg.base),
                ) {
                    None => Err(ENOENT),
                    Some(j) => if v.fast_static_blocks[j].last_gpu_va_space_ptr == 0 {
                        Err(ENOENT)
                    } else {
                        Ok(v.fast_static_blocks[j].last_gpu_va_space_ptr)
                    },
                }
            },
        }
    }
}

/// The state after a static block was unmapped.
pub open spec fn static_block_unmapped(v: PolarisView, arg: PolarisUnmapStaticBlockArg) -> PolarisView {
    match first_index(
        v.fast_static_blocks,
        static_slot_is(arg.gpu_id, arg.rm_client_token, arg.va_space_token, arg.base),
    ) {
        None => v,
        Some(j) => PolarisView {
            fast_static_blocks: v.fast_static_blocks.update(
                j,
                PolarisFastStaticBlockSlot {
                    last_gpu_va_space_ptr: 0,
                    ..v.fast_static_blocks[j]
                },
            ),
            ..v
        },
    }
}

// ─── Mappings of blocks ─────────────────────────────────────────────────────

/// Mappings of a block at a place.
pub open spec fn mapping_at(block_id: u64, gpu_id: u32, client: u64, token: u64, base: u64) -> spec_fn(
    PolarisBlockMapping,
) -> bool {
    |m: PolarisBlockMapping|
        m.block_id == block_id && m.gpu_id == gpu_id && m.rm_client_token == client
            && m.va_space_token == token && m.base == base
}

/// What comes of saying where a block appears: a place that is known already
/// gets the new length and counts as not mapped.
pub open spec fn placing_block(v: PolarisView, arg: PolarisRegisterBlockMappingArg) -> (Result<
    (),
    i32,
>, PolarisView) {
    if arg.block_id == 0 || arg.va_space_token == 0 || arg.length == 0 {
        (Err(EINVAL), v)
    } else {
        match first_index(
            v.va_spaces,
            va_space_is(arg.gpu_id, arg.rm_client_token, arg.va_space_token),
        ) {
            None => (Err(ENOENT), v),
            Some(i) => match v.find_block(arg.block_id) {
                None => (Err(ENOENT), v),
                Some(b) => if v.blocks[b].home_gpu != arg.gpu_id || !in_window(
                    v.va_spaces[i],
                    arg.base,
                    arg.length,
                ) {
                    (Err(EINVAL), v)
                } else {
                    match first_index(
                        v.block_mappings,
                        mapping_at(
                            arg.block_id,
                            arg.gpu_id,
                            arg.rm_client_token,
                            arg.va_space_token,
                            arg.base,
                        ),
                    ) {
                        Some(k) => (
                            Ok(()),
                            PolarisView {
                                block_mappings: v.block_mappings.update(
                                    k,
                                    PolarisBlockMapping {
                                        length: arg.length,
                                        last_gpu_va_space_ptr: 0,
                                        copy_gpu_va_space_ptr: 0,
                                        ..v.block_mappings[k]
                                    },
                                ),
                                ..v
                            },
                        ),
                        None => (
                            Ok(()),
                            PolarisView {
                                block_mappings: v.block_mappings.push(
                                    PolarisBlockMapping {
                                        block_id: arg.block_id,
                                        gpu_id: arg.gpu_id,
                                        rm_client_token: arg.rm_client_token,
                                        va_space_token: arg.va_space_token,
                                        base: arg.base,
                                        length: arg.length,
                                        last_gpu_va_space_ptr: 0,
                                        copy_gpu_va_space_ptr: 0,
                                    },
                                ),
                                ..v
                            },
                        ),
                    }
                },
            },
        }
    }
}

/// What comes of saying what memory backs a block.
pub open spec fn backing(v: PolarisView, arg: PolarisRegisterBlockBackingArg) -> (Result<
    (),
    i32,
>, PolarisView) {
    if arg.block_id == 0 || arg.length == 0 || arg.h_client == 0 || arg.h_memory == 0 {
        (Err(EINVAL), v)
    } else {
        match v.find_block(arg.block_id) {
            None => (Err(ENOENT), v),
            Some(i) => {
                let b = v.blocks[i];
                if b.home_gpu != arg.gpu_id || arg.length < b.size_bytes {
                    (Err(EINVAL), v)
                } else if b.state is FreePending || b.state is OffloadPending
                    || b.state is ReloadPending || b.state is CowPending || b.state is Evicted {
                    (Err(EBUSY), v)
                } else {
                    (
                        Ok(()),
                        v.with_block(
                            i,
                            PolarisBlock {
                                rm_control_fd: arg.rm_control_fd,
                                rm_h_client: arg.h_client,
                                rm_h_memory: arg.h_memory,
                                rm_backing_length: arg.length,
                                rm_backing_offset: arg.offset,
                                ..b
                            },
                        ),
                    )
                }
            },
        }
    }
}

/// Mappings of a block that a fault has made.
pub open spec fn observed(block_id: u64) -> spec_fn(PolarisBlockMapping) -> bool {
    |m: PolarisBlockMapping| m.block_id == block_id && m.last_gpu_va_space_ptr != 0
}

/// A mapping that is to be taken away.
pub open spec fn to_unmap(m: PolarisBlockMapping) -> PolarisMappingUnmap {
    PolarisMappingUnmap {
        block_id: m.block_id,
        gpu_id: m.gpu_id,
        rm_client_token: m.rm_client_token,
        va_space_token: m.va_space_token,
        gpu_va_space_ptr: m.last_gpu_va_space_ptr,
        base: m.base,
        length: m.length,
    }
}

/// What a query for the mappings of a block that faults have made is answered.
pub open spec fn mappings_told(
    v: PolarisView,
    block_id: u64,
    r: Result<Vec<PolarisMappingUnmap>, i32>,
) -> bool {
    if block_id == 0 {
        r == Err::<Vec<PolarisMappingUnmap>, i32>(EINVAL)
    } else if v.find_block(block_id) is None {
        r == Err::<Vec<PolarisMappingUnmap>, i32>(ENOENT)
    } else {
        &&& r is Ok
        &&& r->Ok_0@ == v.block_mappings.filter(observed(block_id)).map_values(
            |m: PolarisBlockMapping| to_unmap(m),
        )
    }
}

/// Mappings that are just as they were when they were to be taken away.
pub open spec fn still_observed(u: PolarisMappingUnmap) -> spec_fn(PolarisBlockMapping) -> bool {
    |m: PolarisBlockMapping| to_unmap(m) == u
}

/// The mappings after those on a list were taken away.
pub open spec fn unmapped(ms: Seq<PolarisBlockMapping>, us: Seq<PolarisMappingUnmap>) -> Seq<
    PolarisBlockMapping,
>
    decreases us.len(),
{
    if us.len() == 0 {
        ms
    } else {
        let before = unmapped(ms, us.drop_last());
        match first_index(before, still_observed(us.last())) {
            Some(i) => before.update(
                i,
                PolarisBlockMapping { last_gpu_va_space_ptr: 0, ..before[i] },
            ),
            None => before,
        }
    }
}

// ─── Memory of blocks ───────────────────────────────────────────────────────

/// The address space that a mapping names: the one it is mapped in, or, with
/// `past`, the one it was last mapped in.
pub open spec fn space_in(m: PolarisBlockMapping, past: bool) -> u64 {
    if past {
        m.copy_gpu_va_space_ptr
    } else {
        m.last_gpu_va_space_ptr
    }
}

/// Mappings of a block that name an address space.
pub open spec fn names_space(block_id: u64, past: bool) -> spec_fn(PolarisBlockMapping) -> bool {
    |m: PolarisBlockMapping| m.block_id == block_id && space_in(m, past) != 0
}

/// The address space that the mappings of a block name. There has to be exactly
/// one.
pub open spec fn only_space(v: PolarisView, block_id: u64, past: bool) -> Result<u64, i32> {
    match first_index(v.block_mappings, names_space(block_id, past)) {
        None => Err(ENOENT),
        Some(k) => {
            let ptr = space_in(v.block_mappings[k], past);
            if exists|j: int|
                0 <= j < v.block_mappings.len() && names_space(block_id, past)(
                    #[trigger] v.block_mappings[j],
                ) && space_in(v.block_mappings[j], past) != ptr {
                Err(EBUSY)
            } else {
                Ok(ptr)
            }
        },
    }
}

/// The address space through which a block's memory is copied away or brought
/// back: the one it is mapped in, or, where it is unmapped, the one it was last
/// mapped in.
pub open spec fn copy_space(v: PolarisView, block_id: u64) -> Result<u64, i32> {
    only_space(
        v,
        block_id,
        first_index(v.block_mappings, names_space(block_id, false)) is None,
    )
}

/// The memory that a block is registered with, as the copy and probe helpers
/// address it through an address space.
pub open spec fn registered_memory(b: PolarisBlock, ptr: u64) -> PolarisRmPhysProbeTarget {
    PolarisRmPhysProbeTarget {
        block_id: b.block_id,
        gpu_id: b.home_gpu,
        gpu_va_space_ptr: ptr,
        rm_control_fd: b.rm_control_fd,
        h_client: b.rm_h_client,
        h_memory: b.rm_h_memory,
        length: b.rm_backing_length,
    }
}

/// The memory of a block that is resident, backed in full and mapped in exactly one
/// address space.
pub open spec fn probe_target(v: PolarisView, block_id: u64) -> Result<PolarisRmPhysProbeTarget, i32> {
    match v.find_block(block_id) {
        None => Err(ENOENT),
        Some(i) => {
            let b = v.blocks[i];
            if !(b.state is Resident) || !b.rm_backed() {
                Err(ENOENT)
            } else {
                match only_space(v, block_id, false) {
                    Err(e) => Err(e),
                    Ok(ptr) => Ok(registered_memory(b, ptr)),
                }
            }
        },
    }
}

/// The memory that a copy moves: that of a resident block, or that of a block which
/// is on its way to host memory and is backed in full, whether it is still mapped
/// or not.
pub open spec fn copy_target(v: PolarisView, block_id: u64) -> Result<PolarisRmPhysProbeTarget, i32> {
    match v.find_block(block_id) {
        Some(i) if v.blocks[i].state is OffloadPending && v.blocks[i].rm_backed() => match copy_space(
            v,
            block_id,
        ) {
            Err(e) => Err(e),
            Ok(ptr) => Ok(registered_memory(v.blocks[i], ptr)),
        },
        _ => probe_target(v, block_id),
    }
}

/// The part of a block's memory that a request is about: `length` bytes from
/// `offset`, all of them where the length is zero.
pub open spec fn span_of(target: Result<PolarisRmPhysProbeTarget, i32>, offset: u64, length: u64) -> Result<
    (PolarisRmPhysProbeTarget, u64),
    i32,
> {
    match target {
        Err(e) => Err(e),
        Ok(t) => {
            let n = if length == 0 {
                t.length
            } else {
                length
            };
            if n == 0 || offset >= t.length || n > sat_sub(t.length, offset) {
                Err(EINVAL)
            } else {
                Ok((t, n))
            }
        },
    }
}

/// The part of a resident block's memory that a probe is about.
pub open spec fn probe_span(v: PolarisView, block_id: u64, offset: u64, length: u64) -> Result<
    (PolarisRmPhysProbeTarget, u64),
    i32,
> {
    if block_id == 0 {
        Err(EINVAL)
    } else {
        span_of(probe_target(v, block_id), offset, length)
    }
}

/// The request of a copy names memory of its own.
pub open spec fn names_memory(arg: PolarisRmCopyArg) -> bool {
    arg.rm_control_fd != 0 || arg.rm_h_client != 0 || arg.rm_h_memory != 0
}

/// The memory that a copy is about, and how much of it. A copy that names memory
/// of its own fills it for a block that is not resident yet; whether so much is
/// there is for the helper to say. Any other copy is about the memory that the
/// block is registered with.
pub open spec fn copy_span(v: PolarisView, arg: PolarisRmCopyArg) -> Result<
    (PolarisRmPhysProbeTarget, u64),
    i32,
> {
    if arg.block_id == 0 || arg.user_cpu_addr == 0 || (arg.direction != POLARIS_RM_COPY_TO_CPU
        && arg.direction != POLARIS_RM_COPY_FROM_CPU) {
        Err(EINVAL)
    } else if !names_memory(arg) {
        span_of(copy_target(v, arg.block_id), arg.offset, arg.length)
    } else {
        match v.find_block(arg.block_id) {
            None => Err(ENOENT),
            Some(i) => match copy_space(v, arg.block_id) {
                Err(e) => Err(e),
                Ok(ptr) => {
                    let b = v.blocks[i];
                    let n = if arg.length == 0 {
                        b.size_bytes
                    } else {
                        arg.length
                    };
                    if n == 0 {
                        Err(EINVAL)
                    } else {
                        Ok(
                            (
                                PolarisRmPhysProbeTarget {
                                    block_id: b.block_id,
                                    gpu_id: b.home_gpu,
                                    gpu_va_space_ptr: ptr,
                                    rm_control_fd: arg.rm_control_fd,
                                    h_client: arg.rm_h_client,
                                    h_memory: arg.rm_h_memory,
                                    length: n,
                                },
                                n,
                            ),
                        )
                    }
                },
            },
        }
    }
}

/// What the probe of a block's memory found.
#[derive(Clone, Copy, PartialEq, Eq, Structural, Debug)]
pub struct PhysProbeReply {
    pub page_size: u64,
    pub phys_addr_count: u64,
    pub first_phys_addr: u64,
    pub last_phys_addr: u64,
    pub contiguous: u64,
    pub sysmem: u64,
    pub egm: u64,
    pub fabricmem: u64,
}

/// What the pattern test of a block's memory found.
#[derive(Clone, Copy, PartialEq, Eq, Structural, Debug)]
pub struct CopyProbeReply {
    pub page_size: u64,
    pub phys_addr_count: u64,
    pub first_phys_addr: u64,
    pub last_phys_addr: u64,
    pub flags: u64,
    pub bytes_checked: u64,
    pub first_mismatch_offset: u64,
    pub expected_byte: u64,
    pub actual_byte: u64,
}

/// What a copy of a block's memory did.
#[derive(Clone, Copy, PartialEq, Eq, Structural, Debug)]
pub struct CopyReply {
    pub page_size: u64,
    pub phys_addr_count: u64,
    pub first_phys_addr: u64,
    pub last_phys_addr: u64,
    pub flags: u64,
    pub bytes_copied: u64,
}

/// The error that a helper's return value stands for: itself where it is an
/// error number.
pub open spec fn helper_errno(ret: i32) -> i32 {
    if 1 <= ret <= 4095 {
        ret
    } else {
        EINVAL
    }
}

/// Four answers as the bits of one word: the low bit of each counts.
pub open spec fn phys_flags(r: PhysProbeReply) -> u64 {
    (r.contiguous & 1) | ((r.sysmem & 1) << 1) | ((r.egm & 1) << 2) | ((r.fabricmem & 1) << 3)
}

// ─── Laws ───────────────────────────────────────────────────────────────────

/// An address space that was announced can be withdrawn by the same handle, and
/// neither leaves a trace where nothing used it in between: the tables and the
/// handle are as before.
pub proof fn law_announce_then_withdraw(
    v: PolarisView,
    d: DeviceView,
    arg: PolarisRegisterVaSpaceArg,
    pid: i32,
    back: PolarisUnregisterVaSpaceArg,
)
    requires
        announcing(v, d, arg, pid).0 is Ok,
        back.gpu_id == arg.gpu_id,
        back.rm_client_token == arg.rm_client_token,
        back.va_space_token == arg.va_space_token,
        d.v4_gpu == 0 && d.v4_client == 0,
        !any(v.fast_va_spaces, va_slot_is(arg.gpu_id, arg.rm_client_token, arg.va_space_token)),
        forall|i: int|
            0 <= i < v.fast_va_spaces.len() && (#[trigger] v.fast_va_spaces[i]).va_space_token == 0
                ==> v.fast_va_spaces[i] == free_va_slot(),
        forall|i: int|
            0 <= i < v.static_blocks.len() ==> static_outside(
                arg.gpu_id,
                arg.rm_client_token,
                arg.va_space_token,
            )(#[trigger] v.static_blocks[i]),
        forall|i: int|
            0 <= i < v.block_mappings.len() ==> mapping_elsewhere(
                arg.gpu_id,
                arg.rm_client_token,
                arg.va_space_token,
            )(#[trigger] v.block_mappings[i]),
        forall|i: int|
            0 <= i < v.fast_static_blocks.len() ==> !((
            #[trigger] v.fast_static_blocks[i]).va_space_token == arg.va_space_token
                && v.fast_static_blocks[i].gpu_id == arg.gpu_id
                && v.fast_static_blocks[i].rm_client_token == arg.rm_client_token),
    ensures
        ({
            let (_, w, e) = announcing(v, d, arg, pid);
            withdrawing(w, e, back) == (Ok::<(), i32>(()), v, d)
        }),
{
    let (_, w, e) = announcing(v, d, arg, pid);
    let key = va_space_is(arg.gpu_id, arg.rm_client_token, arg.va_space_token);
    let slot = va_slot_is(arg.gpu_id, arg.rm_client_token, arg.va_space_token);
    let n = v.va_spaces.len() as int;
    assert(key(w.va_spaces[n]));
    assert forall|j: int| 0 <= j < n implies !key(#[trigger] w.va_spaces[j]) by {
        assert(w.va_spaces[j] == v.va_spaces[j]);
        assert(!key(v.va_spaces[j]));
    }
    assert(crate::seqs::is_first(w.va_spaces, key, n));
    crate::seqs::lemma_first_index_is(w.va_spaces, key, n);
    assert(w.va_spaces.remove(n) =~= v.va_spaces);
    crate::seqs::lemma_first_index(v.fast_va_spaces, slot);
    crate::seqs::lemma_first_index(v.fast_va_spaces, va_slot_free());
    let i = first_index(v.fast_va_spaces, va_slot_free())->0;
    assert(slot(w.fast_va_spaces[i]));
    assert forall|j: int| 0 <= j < i implies !slot(#[trigger] w.fast_va_spaces[j]) by {
        assert(w.fast_va_spaces[j] == v.fast_va_spaces[j]);
        assert(!slot(v.fast_va_spaces[j]));
    }
    assert(crate::seqs::is_first(w.fast_va_spaces, slot, i));
    crate::seqs::lemma_first_index_is(w.fast_va_spaces, slot, i);
    assert(w.fast_va_spaces.update(i, free_va_slot()) =~= v.fast_va_spaces);
    crate::seqs::lemma_filter_all(
        v.static_blocks,
        static_outside(arg.gpu_id, arg.rm_client_token, arg.va_space_token),
    );
    crate::seqs::lemma_filter_all(
        v.block_mappings,
        mapping_elsewhere(arg.gpu_id, arg.rm_client_token, arg.va_space_token),
    );
    assert(static_slots_freed_in(
        w.fast_static_blocks,
        arg.gpu_id,
        arg.rm_client_token,
        arg.va_space_token,
    ) =~= v.fast_static_blocks);
}

/// Withdrawing an address space takes away exactly the mappings in it.
pub proof fn law_withdrawing_reaps_only_its_own_mappings(
    v: PolarisView,
    d: DeviceView,
    arg: PolarisUnregisterVaSpaceArg,
    m: PolarisBlockMapping,
)
    requires
        withdrawing(v, d, arg).0 is Ok,
    ensures
        withdrawing(v, d, arg).1.block_mappings.contains(m) <==> v.block_mappings.contains(m)
            && mapping_elsewhere(arg.gpu_id, arg.rm_client_token, arg.va_space_token)(m),
        withdrawing(v, d, arg).1.blocks == v.blocks,
{
    crate::seqs::lemma_filter_members(
        v.block_mappings,
        mapping_elsewhere(arg.gpu_id, arg.rm_client_token, arg.va_space_token),
    );
}

/// A request that is refused changes nothing.
pub proof fn law_refused_address_space_changes_nothing(
    v: PolarisView,
    d: DeviceView,
    arg: PolarisRegisterVaSpaceArg,
    back: PolarisUnregisterVaSpaceArg,
    pid: i32,
)
    ensures
        announcing(v, d, arg, pid).0 is Err ==> announcing(v, d, arg, pid).1 == v && announcing(
            v,
            d,
            arg,
            pid,
        ).2 == d,
        withdrawing(v, d, back).0 is Err ==> withdrawing(v, d, back).1 == v && withdrawing(
            v,
            d,
            back,
        ).2 == d,
{
}

// ─── Handling ───────────────────────────────────────────────────────────────

/// The error that a helper's return value stands for.
pub fn errno_of_helper(ret: i32) -> (r: i32)
    ensures
        r == helper_errno(ret),
{
    if ret >= 1 && ret <= 4095 {
        ret
    } else {
        EINVAL
    }
}

/// The part of a block's memory that a request is about.
fn part_of(target: Result<PolarisRmPhysProbeTarget, i32>, offset: u64, length: u64) -> (r: Result<
    (PolarisRmPhysProbeTarget, u64),
    i32,
>)
    ensures
        r == span_of(target, offset, length),
{
    let target = match target {
        Ok(t) => t,
        Err(e) => {
            return Err(e);
        },
    };
    let query_length: u64 = if length == 0 {
        target.length
    } else {
        length
    };
    if query_length == 0 || offset >= target.length || query_length > target.length.saturating_sub(
        offset,
    ) {
        return Err(EINVAL);
    }
    Ok((target, query_length))
}

impl PolarisBlock {
    /// The memory that the block is registered with, addressed through an address
    /// space.
    fn registered_memory(&self, ptr: u64) -> (r: PolarisRmPhysProbeTarget)
        ensures
            r == registered_memory(*self, ptr),
    {
        PolarisRmPhysProbeTarget {
            block_id: self.block_id,
            gpu_id: self.home_gpu,
            gpu_va_space_ptr: ptr,
            rm_control_fd: self.rm_control_fd,
            h_client: self.rm_h_client,
            h_memory: self.rm_h_memory,
            length: self.rm_backing_length,
        }
    }
}

/// What a helper that was asked to unmap answered.
pub open spec fn unmap_told(ret: i32) -> Result<(), i32> {
    if ret == 0 {
        Ok(())
    } else {
        Err(helper_errno(ret))
    }
}

/// What a helper that was asked to unmap answered.
pub fn unmap_outcome(ret: i32) -> (r: Result<(), i32>)
    ensures
        r == unmap_told(ret),
{
    if ret == 0 {
        Ok(())
    } else {
        Err(errno_of_helper(ret))
    }
}

/// The answer to a probe of a block's memory.
pub open spec fn phys_told(
    arg: PolarisProbeRmPhysArg,
    query_length: u64,
    ret: i32,
    reply: PhysProbeReply,
) -> Result<PolarisProbeRmPhysArg, i32> {
    if ret != 0 {
        Err(helper_errno(ret))
    } else {
        Ok(
            PolarisProbeRmPhysArg {
                length: query_length,
                page_size: reply.page_size,
                phys_addr_count: reply.phys_addr_count,
                first_phys_addr: reply.first_phys_addr,
                last_phys_addr: reply.last_phys_addr,
                flags: phys_flags(reply),
                ..arg
            },
        )
    }
}

/// The answer to a probe of a block's memory.
pub fn probe_rm_phys_reply(
    arg: PolarisProbeRmPhysArg,
    query_length: u64,
    ret: i32,
    reply: PhysProbeReply,
) -> (r: Result<PolarisProbeRmPhysArg, i32>)
    ensures
        r == phys_told(arg, query_length, ret, reply),
{
    if ret != 0 {
        return Err(errno_of_helper(ret));
    }
    let flags: u64 = (reply.contiguous & 1) | ((reply.sysmem & 1) << 1) | ((reply.egm & 1) << 2) | ((
    reply.fabricmem & 1) << 3);
    Ok(
        PolarisProbeRmPhysArg {
            length: query_length,
            page_size: reply.page_size,
            phys_addr_count: reply.phys_addr_count,
            first_phys_addr: reply.first_phys_addr,
            last_phys_addr: reply.last_phys_addr,
            flags,
            ..arg
        },
    )
}

/// The answer to a pattern test of a block's memory.
pub open spec fn pattern_told(
    arg: PolarisProbeRmCopyArg,
    query_length: u64,
    ret: i32,
    reply: CopyProbeReply,
) -> Result<PolarisProbeRmCopyArg, i32> {
    if ret != 0 {
        Err(helper_errno(ret))
    } else {
        Ok(
            PolarisProbeRmCopyArg {
                length: query_length,
                page_size: reply.page_size,
                phys_addr_count: reply.phys_addr_count,
                first_phys_addr: reply.first_phys_addr,
                last_phys_addr: reply.last_phys_addr,
                flags: reply.flags,
                bytes_checked: reply.bytes_checked,
                first_mismatch_offset: reply.first_mismatch_offset,
                expected_byte: reply.expected_byte,
                actual_byte: reply.actual_byte,
                ..arg
            },
        )
    }
}

/// The answer to a pattern test of a block's memory.
pub fn probe_rm_copy_reply(
    arg: PolarisProbeRmCopyArg,
    query_length: u64,
    ret: i32,
    reply: CopyProbeReply,
) -> (r: Result<PolarisProbeRmCopyArg, i32>)
    ensures
        r == pattern_told(arg, query_length, ret, reply),
{
    if ret != 0 {
        return Err(errno_of_helper(ret));
    }
    Ok(
        PolarisProbeRmCopyArg {
            length: query_length,
            page_size: reply.page_size,
            phys_addr_count: reply.phys_addr_count,
            first_phys_addr: reply.first_phys_addr,
            last_phys_addr: reply.last_phys_addr,
            flags: reply.flags,
            bytes_checked: reply.bytes_checked,
            first_mismatch_offset: reply.first_mismatch_offset,
            expected_byte: reply.expected_byte,
            actual_byte: reply.actual_byte,
            ..arg
        },
    )
}

/// The answer to a copy of a block's memory.
pub open spec fn copy_told(
    arg: PolarisRmCopyArg,
    query_length: u64,
    ret: i32,
    reply: CopyReply,
) -> Result<PolarisRmCopyArg, i32> {
    if ret != 0 {
        Err(helper_errno(ret))
    } else {
        Ok(
            PolarisRmCopyArg {
                length: query_length,
                page_size: reply.page_size,
                phys_addr_count: reply.phys_addr_count,
                first_phys_addr: reply.first_phys_addr,
                last_phys_addr: reply.last_phys_addr,
                flags: reply.flags,
                bytes_copied: reply.bytes_copied,
                ..arg
            },
        )
    }
}

/// The answer to a copy of a block's memory.
pub fn rm_copy_reply(arg: PolarisRmCopyArg, query_length: u64, ret: i32, reply: CopyReply) -> (r: Result<
    PolarisRmCopyArg,
    i32,
>)
    ensures
        r == copy_told(arg, query_length, ret, reply),
{
    if ret != 0 {
        return Err(errno_of_helper(ret));
    }
    Ok(
        PolarisRmCopyArg {
            length: query_length,
            page_size: reply.page_size,
            phys_addr_count: reply.phys_addr_count,
            first_phys_addr: reply.first_phys_addr,
            last_phys_addr: reply.last_phys_addr,
            flags: reply.flags,
            bytes_copied: reply.bytes_copied,
            ..arg
        },
    )
}

/// Whether a range lies in the managed window of an address space.
fn is_in_window(s: &PolarisVaSpace, base: u64, length: u64) -> (r: bool)
    ensures
        r == in_window(*s, base, length),
{
    match (base.checked_add(length), s.managed_base.checked_add(s.managed_length)) {
        (Some(end), Some(managed_end)) => base >= s.managed_base && end <= managed_end,
        _ => false,
    }
}

impl PolarisBlockMapping {
    /// The address space that the mapping names.
    fn space(&self, past: bool) -> (r: u64)
        ensures
            r == space_in(*self, past),
    {
        if past {
            self.copy_gpu_va_space_ptr
        } else {
            self.last_gpu_va_space_ptr
        }
    }
}

impl PolarisInner {
    /// The first address space with the key.
    fn find_va_space(&self, gpu_id: u32, client: u64, token: u64) -> (r: Option<usize>)
        ensures
            as_index(r) == first_index(self@.va_spaces, va_space_is(gpu_id, client, token)),
            r matches Some(i) ==> i < self@.va_spaces.len(),
            r is Some <==> any(self@.va_spaces, va_space_is(gpu_id, client, token)),
    {
        proof {
            crate::seqs::lemma_first_index(self@.va_spaces, va_space_is(gpu_id, client, token));
        }
        find(
            &self.va_spaces,
            |s: &PolarisVaSpace| -> (x: bool)
                ensures
                    x == va_space_is(gpu_id, client, token)(*s)
                { s.gpu_id == gpu_id && s.rm_client_token == client && s.va_space_token == token },
            Ghost(va_space_is(gpu_id, client, token)),
        )
    }

    /// The first slot of a static block.
    fn find_static_slot(&self, gpu_id: u32, client: u64, token: u64, base: u64) -> (r: Option<usize>)
        ensures
            as_index(r) == first_index(
                self@.fast_static_blocks,
                static_slot_is(gpu_id, client, token, base),
            ),
            r matches Some(i) ==> i < self@.fast_static_blocks.len(),
    {
        find(
            &self.fast_static_blocks,
            |s: &PolarisFastStaticBlockSlot| -> (x: bool)
                ensures
                    x == static_slot_is(gpu_id, client, token, base)(*s)
                {
                    s.va_space_token == token && s.gpu_id == gpu_id && s.rm_client_token == client
                        && s.base == base
                },
            Ghost(static_slot_is(gpu_id, client, token, base)),
        )
    }

    /// Enter an address space in the lookup table.
    pub fn fast_vaspace_register(
        &mut self,
        gpu_id: u32,
        client: u64,
        token: u64,
        managed_base: u64,
        managed_length: u64,
    ) -> (r: Result<(), i32>)
        ensures
            match va_slot_taken(
                old(self)@.fast_va_spaces,
                gpu_id,
                client,
                token,
                managed_base,
                managed_length,
            ) {
                Ok(slots) => r is Ok && final(self)@ == (PolarisView {
                    fast_va_spaces: slots,
                    ..old(self)@
                }),
                Err(e) => r == Err::<(), i32>(e) && final(self)@ == old(self)@,
            },
    {
        if token == 0 || managed_length == 0 {
            return Err(EINVAL);
        }
        let known = find(
            &self.fast_va_spaces,
            |s: &PolarisFastVaSpaceSlot| -> (x: bool)
                ensures
                    x == va_slot_is(gpu_id, client, token)(*s)
                { s.va_space_token == token && s.gpu_id == gpu_id && s.rm_client_token == client },
            Ghost(va_slot_is(gpu_id, client, token)),
        );
        if let Some(i) = known {
            self.fast_va_spaces[i].managed_base = managed_base;
            self.fast_va_spaces[i].managed_length = managed_length;
            return Ok(());
        }
        let free = find(
            &self.fast_va_spaces,
            |s: &PolarisFastVaSpaceSlot| -> (x: bool)
                ensures
                    x == va_slot_free()(*s)
                { s.va_space_token == 0 },
            Ghost(va_slot_free()),
        );
        match free {
            Some(i) => {
                self.fast_va_spaces[i] = PolarisFastVaSpaceSlot {
                    gpu_id,
                    rm_client_token: client,
                    va_space_token: token,
                    managed_base,
                    managed_length,
                };
                Ok(())
            },
            None => Err(ENOMEM),
        }
    }

    /// Take an address space out of the lookup table.
    pub fn fast_vaspace_unregister(&mut self, gpu_id: u32, client: u64, token: u64)
        ensures
            final(self)@ == (PolarisView {
                fast_va_spaces: va_slot_freed(old(self)@.fast_va_spaces, gpu_id, client, token),
                ..old(self)@
            }),
    {
        if token == 0 {
            return ;
        }
        let known = find(
            &self.fast_va_spaces,
            |s: &PolarisFastVaSpaceSlot| -> (x: bool)
                ensures
                    x == va_slot_is(gpu_id, client, token)(*s)
                { s.va_space_token == token && s.gpu_id == gpu_id && s.rm_client_token == client },
            Ghost(va_slot_is(gpu_id, client, token)),
        );
        if let Some(i) = known {
            self.fast_va_spaces[i] = PolarisFastVaSpaceSlot {
                gpu_id: 0,
                rm_client_token: 0,
                va_space_token: 0,
                managed_base: 0,
                managed_length: 0,
            };
        }
    }

    /// Take the static blocks of an address space out of the lookup table.
    pub fn fast_static_blocks_unregister_va_space(&mut self, gpu_id: u32, client: u64, token: u64)
        ensures
            final(self)@ == (PolarisView {
                fast_static_blocks: static_slots_freed_in(
                    old(self)@.fast_static_blocks,
                    gpu_id,
                    client,
                    token,
                ),
                ..old(self)@
            }),
    {
        if token == 0 {
            return ;
        }
        let ghost v = self@;
        let ghost goal = static_slots_freed_in(v.fast_static_blocks, gpu_id, client, token);
        let mut i: usize = 0;
        while i < self.fast_static_blocks.len()
            invariant
                token != 0,
                0 <= i <= v.fast_static_blocks.len(),
                goal == static_slots_freed_in(v.fast_static_blocks, gpu_id, client, token),
                self.fast_static_blocks@.len() == v.fast_static_blocks.len(),
                self@ == (PolarisView { fast_static_blocks: self.fast_static_blocks@, ..v }),
                forall|k: int| 0 <= k < i ==> self.fast_static_blocks@[k] == #[trigger] goal[k],
                forall|k: int|
                    i <= k < v.fast_static_blocks.len() ==> self.fast_static_blocks@[k]
                        == #[trigger] v.fast_static_blocks[k],
            decreases v.fast_static_blocks.len() - i,
        {
            let s = self.fast_static_blocks[i];
            assert(s == v.fast_static_blocks[i as int]);
            if s.va_space_token == token && s.gpu_id == gpu_id && s.rm_client_token == client {
                self.fast_static_blocks[i] = PolarisFastStaticBlockSlot {
                    gpu_id: 0,
                    rm_client_token: 0,
                    rm_control_fd: 0,
                    h_client: 0,
                    h_memory: 0,
                    va_space_token: 0,
                    base: 0,
                    length: 0,
                    offset: 0,
                    last_gpu_va_space_ptr: 0,
                };
            }
            i += 1;
        }
        assert(self.fast_static_blocks@ =~= goal);
    }

    /// Empty both lookup tables.
    pub fn fast_vaspace_clear_all(&mut self)
        ensures
            final(self)@ == (PolarisView {
                fast_va_spaces: Seq::new(old(self)@.fast_va_spaces.len(), |i: int| free_va_slot()),
                fast_static_blocks: Seq::new(
                    old(self)@.fast_static_blocks.len(),
                    |i: int| free_static_slot(),
                ),
                ..old(self)@
            }),
    {
        let ghost v = self@;
        let mut i: usize = 0;
        while i < self.fast_va_spaces.len()
            invariant
                0 <= i <= v.fast_va_spaces.len(),
                self.fast_va_spaces@.len() == v.fast_va_spaces.len(),
                self@ == (PolarisView { fast_va_spaces: self.fast_va_spaces@, ..v }),
                forall|k: int| 0 <= k < i ==> #[trigger] self.fast_va_spaces@[k] == free_va_slot(),
            decreases v.fast_va_spaces.len() - i,
        {
            self.fast_va_spaces[i] = PolarisFastVaSpaceSlot {
                gpu_id: 0,
                rm_client_token: 0,
                va_space_token: 0,
                managed_base: 0,
                managed_length: 0,
            };
            i += 1;
        }
        let ghost w = self@;
        let mut j: usize = 0;
        while j < self.fast_static_blocks.len()
            invariant
                0 <= j <= w.fast_static_blocks.len(),
                self.fast_static_blocks@.len() == w.fast_static_blocks.len(),
                self@ == (PolarisView { fast_static_blocks: self.fast_static_blocks@, ..w }),
                forall|k: int|
                    0 <= k < j ==> #[trigger] self.fast_static_blocks@[k] == free_static_slot(),
            decreases w.fast_static_blocks.len() - j,
        {
            self.fast_static_blocks[j] = PolarisFastStaticBlockSlot {
                gpu_id: 0,
                rm_client_token: 0,
                rm_control_fd: 0,
                h_client: 0,
                h_memory: 0,
                va_space_token: 0,
                base: 0,
                length: 0,
                offset: 0,
                last_gpu_va_space_ptr: 0,
            };
            j += 1;
        }
        assert(self.fast_va_spaces@ =~= Seq::new(v.fast_va_spaces.len(), |i: int| free_va_slot()));
        assert(self.fast_static_blocks@ =~= Seq::new(
            v.fast_static_blocks.len(),
            |i: int| free_static_slot(),
        ));
    }

    /// Take all that is in an address space out of the tables.
    pub fn drop_contents(&mut self, gpu_id: u32, client: u64, token: u64)
        ensures
            final(self)@ == without_contents(old(self)@, gpu_id, client, token),
    {
        retain(
            &mut self.static_blocks,
            |s: &PolarisStaticBlock| -> (x: bool)
                ensures
                    x == static_outside(gpu_id, client, token)(*s)
                {
                    !(s.gpu_id == gpu_id && s.rm_client_token == client && s.va_space_token
                        == token)
                },
            Ghost(static_outside(gpu_id, client, token)),
        );
        retain(
            &mut self.block_mappings,
            |m: &PolarisBlockMapping| -> (x: bool)
                ensures
                    x == mapping_elsewhere(gpu_id, client, token)(*m)
                {
                    !(m.gpu_id == gpu_id && m.rm_client_token == client && m.va_space_token
                        == token)
                },
            Ghost(mapping_elsewhere(gpu_id, client, token)),
        );
        self.fast_vaspace_unregister(gpu_id, client, token);
        self.fast_static_blocks_unregister_va_space(gpu_id, client, token);
    }

    /// Announce an address space for the handle `dev`, opened by process `pid`.
    pub fn register_va_space(
        &mut self,
        dev: &mut PolarisDevice,
        arg: PolarisRegisterVaSpaceArg,
        pid: i32,
    ) -> (r: Result<(), i32>)
        ensures
            (r, final(self)@, final(dev)@) == announcing(old(self)@, old(dev)@, arg, pid),
    {
        if arg.va_space_token == 0 || arg.managed_length == 0 {
            return Err(EINVAL);
        }
        if dev.v4_token != 0 {
            return Err(EBUSY);
        }
        if self.find_gpu(arg.gpu_id).is_none() {
            return Err(ENOENT);
        }
        proof {
            crate::seqs::lemma_first_index(self@.gpus, gpu_is(arg.gpu_id));
        }
        if self.find_va_space(arg.gpu_id, arg.rm_client_token, arg.va_space_token).is_some() {
            return Err(EEXIST);
        }
        match self.fast_vaspace_register(
            arg.gpu_id,
            arg.rm_client_token,
            arg.va_space_token,
            arg.managed_base,
            arg.managed_length,
        ) {
            Ok(_) => {},
            Err(e) => {
                return Err(e);
            },
        }
        self.va_spaces.push(
            PolarisVaSpace {
                gpu_id: arg.gpu_id,
                pid,
                rm_client_token: arg.rm_client_token,
                va_space_token: arg.va_space_token,
                managed_base: arg.managed_base,
                managed_length: arg.managed_length,
            },
        );
        dev.v4_gpu = arg.gpu_id;
        dev.v4_client = arg.rm_client_token;
        dev.v4_token = arg.va_space_token;
        Ok(())
    }

    /// Withdraw the address space that the handle `dev` announced.
    pub fn unregister_va_space(&mut self, dev: &mut PolarisDevice, arg: PolarisUnregisterVaSpaceArg) -> (r:
        Result<(), i32>)
        ensures
            (r, final(self)@, final(dev)@) == withdrawing(old(self)@, old(dev)@, arg),
    {
        let i: usize = match self.find_va_space(
            arg.gpu_id,
            arg.rm_client_token,
            arg.va_space_token,
        ) {
            Some(i) => i,
            None => {
                return Err(ENOENT);
            },
        };
        if !(dev.v4_gpu == arg.gpu_id && dev.v4_client == arg.rm_client_token && dev.v4_token
            == arg.va_space_token) {
            return Err(EPERM);
        }
        let _ = self.va_spaces.remove(i);
        self.drop_contents(arg.gpu_id, arg.rm_client_token, arg.va_space_token);
        dev.v4_gpu = 0;
        dev.v4_client = 0;
        dev.v4_token = 0;
        Ok(())
    }

    /// Enter a static block in the lookup table.
    pub fn fast_static_block_register(&mut self, block: &PolarisStaticBlock) -> (r: Result<(), i32>)
        ensures
            match static_slot_taken(old(self)@.fast_static_blocks, *block) {
                Ok(slots) => r is Ok && final(self)@ == (PolarisView {
                    fast_static_blocks: slots,
                    ..old(self)@
                }),
                Err(e) => r == Err::<(), i32>(e) && final(self)@ == old(self)@,
            },
    {
        if block.va_space_token == 0 || block.length == 0 || block.h_memory == 0 {
            return Err(EINVAL);
        }
        let at = match self.find_static_slot(
            block.gpu_id,
            block.rm_client_token,
            block.va_space_token,
            block.base,
        ) {
            Some(i) => Some(i),
            None => find(
                &self.fast_static_blocks,
                |s: &PolarisFastStaticBlockSlot| -> (x: bool)
                    ensures
                        x == static_slot_free()(*s)
                    { s.va_space_token == 0 },
                Ghost(static_slot_free()),
            ),
        };
        match at {
            Some(i) => {
                let ptr: u64 = self.fast_static_blocks[i].last_gpu_va_space_ptr;
                self.fast_static_blocks[i] = PolarisFastStaticBlockSlot {
                    gpu_id: block.gpu_id,
                    rm_client_token: block.rm_client_token,
                    rm_control_fd: block.rm_control_fd,
                    h_client: block.h_client,
                    h_memory: block.h_memory,
                    va_space_token: block.va_space_token,
                    base: block.base,
                    length: block.length,
                    offset: block.offset,
                    last_gpu_va_space_ptr: ptr,
                };
                Ok(())
            },
            None => Err(ENOMEM),
        }
    }

    /// Announce a static block.
    pub fn register_static_block(&mut self, arg: PolarisRegisterStaticBlockArg) -> (r: Result<
        (),
        i32,
    >)
        ensures
            (r, final(self)@) == placing_static_block(old(self)@, arg),
    {
        if arg.va_space_token == 0 || arg.length == 0 || arg.h_memory == 0 {
            return Err(EINVAL);
        }
        let i: usize = match self.find_va_space(
            arg.gpu_id,
            arg.rm_client_token,
            arg.va_space_token,
        ) {
            Some(i) => i,
            None => {
                return Err(ENOENT);
            },
        };
        if !is_in_window(&self.va_spaces[i], arg.base, arg.length) {
            return Err(EINVAL);
        }
        let ghost p = static_block_at(
            arg.gpu_id,
            arg.rm_client_token,
            arg.va_space_token,
            arg.base,
        );
        proof {
            crate::seqs::lemma_first_index(self@.static_blocks, p);
        }
        let known = find(
            &self.static_blocks,
            |s: &PolarisStaticBlock| -> (x: bool)
                ensures
                    x == p(*s)
                {
                    s.gpu_id == arg.gpu_id && s.va_space_token == arg.va_space_token
                        && s.rm_client_token == arg.rm_client_token && s.base == arg.base
                },
            Ghost(p),
        );
        if known.is_some() {
            return Err(EEXIST);
        }
        let block = PolarisStaticBlock {
            gpu_id: arg.gpu_id,
            rm_client_token: arg.rm_client_token,
            va_space_token: arg.va_space_token,
            base: arg.base,
            length: arg.length,
            offset: arg.offset,
            rm_control_fd: arg.rm_control_fd,
            h_client: arg.h_client,
            h_memory: arg.h_memory,
        };
        match self.fast_static_block_register(&block) {
            Ok(_) => {},
            Err(e) => {
                return Err(e);
            },
        }
        self.static_blocks.push(block);
        Ok(())
    }

    /// Say in which address space a static block is to be unmapped. After that
    /// was done, call `static_block_was_unmapped`.
    pub fn unmap_static_block(&self, arg: PolarisUnmapStaticBlockArg) -> (r: Result<u64, i32>)
        ensures
            r == static_block_to_unmap(self@, arg),
    {
        if arg.va_space_token == 0 || arg.length == 0 {
            return Err(EINVAL);
        }
        let ghost p = static_block_at(
            arg.gpu_id,
            arg.rm_client_token,
            arg.va_space_token,
            arg.base,
        );
        let i: usize = match find(
            &self.static_blocks,
            |s: &PolarisStaticBlock| -> (x: bool)
                ensures
                    x == p(*s)
                {
                    s.gpu_id == arg.gpu_id && s.va_space_token == arg.va_space_token
                        && s.rm_client_token == arg.rm_client_token && s.base == arg.base
                },
            Ghost(p),
        ) {
            Some(i) => i,
            None => {
                return Err(ENOENT);
            },
        };
        if arg.length > self.static_blocks[i].length {
            return Err(EINVAL);
        }
        match self.find_static_slot(
            arg.gpu_id,
            arg.rm_client_token,
            arg.va_space_token,
            arg.base,
        ) {
            Some(j) => {
                let ptr: u64 = self.fast_static_blocks[j].last_gpu_va_space_ptr;
                if ptr == 0 {
                    Err(ENOENT)
                } else {
                    Ok(ptr)
                }
            },
            None => Err(ENOENT),
        }
    }

    /// Note that a static block was unmapped.
    pub fn static_block_was_unmapped(&mut self, arg: PolarisUnmapStaticBlockArg)
        ensures
            final(self)@ == static_block_unmapped(old(self)@, arg),
    {
        if let Some(j) = self.find_static_slot(
            arg.gpu_id,
            arg.rm_client_token,
            arg.va_space_token,
            arg.base,
        ) {
            self.fast_static_blocks[j].last_gpu_va_space_ptr = 0;
        }
    }

    /// Say where in an address space a block appears.
    pub fn register_block_mapping(&mut self, arg: PolarisRegisterBlockMappingArg) -> (r: Result<
        (),
        i32,
    >)
        ensures
            (r, final(self)@) == placing_block(old(self)@, arg),
    {
        if arg.block_id == 0 || arg.va_space_token == 0 || arg.length == 0 {
            return Err(EINVAL);
        }
        let i: usize = match self.find_va_space(
            arg.gpu_id,
            arg.rm_client_token,
            arg.va_space_token,
        ) {
            Some(i) => i,
            None => {
                return Err(ENOENT);
            },
        };
        let b: usize = match self.find_block(arg.block_id) {
            Some(b) => b,
            None => {
                return Err(ENOENT);
            },
        };
        if self.blocks[b].home_gpu != arg.gpu_id {
            return Err(EINVAL);
        }
        if !is_in_window(&self.va_spaces[i], arg.base, arg.length) {
            return Err(EINVAL);
        }
        let ghost p = mapping_at(
            arg.block_id,
            arg.gpu_id,
            arg.rm_client_token,
            arg.va_space_token,
            arg.base,
        );
        let known = find(
            &self.block_mappings,
            |m: &PolarisBlockMapping| -> (x: bool)
                ensures
                    x == p(*m)
                {
                    m.block_id == arg.block_id && m.gpu_id == arg.gpu_id && m.rm_client_token
                        == arg.rm_client_token && m.va_space_token == arg.va_space_token && m.base
                        == arg.base
                },
            Ghost(p),
        );
        match known {
            Some(k) => {
                self.block_mappings[k].length = arg.length;
                self.block_mappings[k].last_gpu_va_space_ptr = 0;
                self.block_mappings[k].copy_gpu_va_space_ptr = 0;
            },
            None => {
                self.block_mappings.push(
                    PolarisBlockMapping {
                        block_id: arg.block_id,
                        gpu_id: arg.gpu_id,
                        rm_client_token: arg.rm_client_token,
                        va_space_token: arg.va_space_token,
                        base: arg.base,
                        length: arg.length,
                        last_gpu_va_space_ptr: 0,
                        copy_gpu_va_space_ptr: 0,
                    },
                );
            },
        }
        Ok(())
    }

    /// Say what memory backs a block.
    pub fn register_block_backing(&mut self, arg: PolarisRegisterBlockBackingArg) -> (r: Result<
        (),
        i32,
    >)
        ensures
            (r, final(self)@) == backing(old(self)@, arg),
    {
        if arg.block_id == 0 || arg.length == 0 || arg.h_client == 0 || arg.h_memory == 0 {
            return Err(EINVAL);
        }
        let i: usize = match self.find_block(arg.block_id) {
            Some(i) => i,
            None => {
                return Err(ENOENT);
            },
        };
        let block = self.blocks[i];
        if block.home_gpu != arg.gpu_id || arg.length < block.size_bytes {
            return Err(EINVAL);
        }
        if matches!(
            block.state,
            PolarisBlockState::FreePending | PolarisBlockState::OffloadPending
            | PolarisBlockState::ReloadPending | PolarisBlockState::CowPending
            | PolarisBlockState::Evicted
        ) {
            return Err(EBUSY);
        }
        self.blocks[i].rm_control_fd = arg.rm_control_fd;
        self.blocks[i].rm_h_client = arg.h_client;
        self.blocks[i].rm_h_memory = arg.h_memory;
        self.blocks[i].rm_backing_length = arg.length;
        self.blocks[i].rm_backing_offset = arg.offset;
        Ok(())
    }

    /// The observed mappings of a block, which are to be unmapped. After all of
    /// them were, call `mappings_were_unmapped`.
    pub fn unmap_observed_block_mappings(&self, block_id: u64) -> (r: Result<
        Vec<PolarisMappingUnmap>,
        i32,
    >)
        ensures
            mappings_told(self@, block_id, r),
    {
        if block_id == 0 {
            return Err(EINVAL);
        }
        if self.find_block(block_id).is_none() {
            return Err(ENOENT);
        }
        let ghost p = observed(block_id);
        let ghost ms = self@.block_mappings;
        let mut out: Vec<PolarisMappingUnmap> = Vec::new();
        let mut i: usize = 0;
        proof {
            reveal(Seq::filter);
            assert(ms.take(0).filter(p) =~= Seq::empty());
        }
        while i < self.block_mappings.len()
            invariant
                0 <= i <= ms.len(),
                ms == self.block_mappings@,
                p == observed(block_id),
                out@ == ms.take(i as int).filter(p).map_values(
                    |m: PolarisBlockMapping| to_unmap(m),
                ),
            decreases ms.len() - i,
        {
            let m = self.block_mappings[i];
            proof {
                reveal(Seq::filter);
                assert(ms.take(i as int + 1).drop_last() =~= ms.take(i as int));
            }
            if m.block_id == block_id && m.last_gpu_va_space_ptr != 0 {
                let ghost before = out@;
                out.push(
                    PolarisMappingUnmap {
                        block_id: m.block_id,
                        gpu_id: m.gpu_id,
                        rm_client_token: m.rm_client_token,
                        va_space_token: m.va_space_token,
                        gpu_va_space_ptr: m.last_gpu_va_space_ptr,
                        base: m.base,
                        length: m.length,
                    },
                );
                assert(out@ =~= ms.take(i as int + 1).filter(p).map_values(
                    |m: PolarisBlockMapping| to_unmap(m),
                ));
            }
            i += 1;
        }
        assert(ms.take(i as int) =~= ms);
        Ok(out)
    }

    /// Note that mappings were unmapped, those that have not changed since.
    pub fn mappings_were_unmapped(&mut self, list: &Vec<PolarisMappingUnmap>)
        ensures
            final(self)@ == (PolarisView {
                block_mappings: unmapped(old(self)@.block_mappings, list@),
                ..old(self)@
            }),
    {
        let ghost v = self@;
        let mut i: usize = 0;
        while i < list.len()
            invariant
                0 <= i <= list@.len(),
                self@ == (PolarisView {
                    block_mappings: unmapped(v.block_mappings, list@.take(i as int)),
                    ..v
                }),
            decreases list@.len() - i,
        {
            let u = list[i];
            assert(list@.take(i as int + 1).drop_last() =~= list@.take(i as int));
            let at = find(
                &self.block_mappings,
                |m: &PolarisBlockMapping| -> (x: bool)
                    ensures
                        x == still_observed(u)(*m)
                    {
                        m.block_id == u.block_id && m.gpu_id == u.gpu_id && m.rm_client_token
                            == u.rm_client_token && m.va_space_token == u.va_space_token && m.base
                            == u.base && m.length == u.length && m.last_gpu_va_space_ptr
                            == u.gpu_va_space_ptr
                    },
                Ghost(still_observed(u)),
            );
            if let Some(k) = at {
                self.block_mappings[k].last_gpu_va_space_ptr = 0;
            }
            i += 1;
        }
        assert(list@.take(i as int) =~= list@);
    }

    /// The address space that the mappings of a block name.
    fn space_of(&self, block_id: u64, past: bool) -> (r: Result<u64, i32>)
        ensures
            r == only_space(self@, block_id, past),
    {
        let ghost p = names_space(block_id, past);
        let first = find(
            &self.block_mappings,
            |m: &PolarisBlockMapping| -> (x: bool)
                ensures
                    x == p(*m)
                { m.block_id == block_id && m.space(past) != 0 },
            Ghost(p),
        );
        let ptr: u64 = match first {
            Some(k) => self.block_mappings[k].space(past),
            None => {
                return Err(ENOENT);
            },
        };
        let mut j: usize = 0;
        while j < self.block_mappings.len()
            invariant
                0 <= j <= self@.block_mappings.len(),
                p == names_space(block_id, past),
                first is Some,
                ptr == space_in(self@.block_mappings[first->0 as int], past),
                first_index(self@.block_mappings, p) == as_index(first),
                forall|k: int|
                    0 <= k < j && p(#[trigger] self@.block_mappings[k]) ==> space_in(
                        self@.block_mappings[k],
                        past,
                    ) == ptr,
            decreases self@.block_mappings.len() - j,
        {
            let m = &self.block_mappings[j];
            let space: u64 = m.space(past);
            if m.block_id == block_id && space != 0 && space != ptr {
                assert(p(self@.block_mappings[j as int]));
                return Err(EBUSY);
            }
            j += 1;
        }
        Ok(ptr)
    }

    /// The address space through which a block's memory is copied.
    fn copy_space_of(&self, block_id: u64) -> (r: Result<u64, i32>)
        ensures
            r == copy_space(self@, block_id),
    {
        let mapped = find(
            &self.block_mappings,
            |m: &PolarisBlockMapping| -> (x: bool)
                ensures
                    x == names_space(block_id, false)(*m)
                { m.block_id == block_id && m.space(false) != 0 },
            Ghost(names_space(block_id, false)),
        );
        self.space_of(block_id, mapped.is_none())
    }

    /// The memory of a block, as the copy and probe helpers address it.
    pub fn snapshot_rm_phys_probe_target(&self, block_id: u64) -> (r: Result<
        PolarisRmPhysProbeTarget,
        i32,
    >)
        ensures
            r == probe_target(self@, block_id),
    {
        let i: usize = match self.find_block(block_id) {
            Some(i) => i,
            None => {
                return Err(ENOENT);
            },
        };
        let block = self.blocks[i];
        if block.state != PolarisBlockState::Resident || !block.has_rm_backing() {
            return Err(ENOENT);
        }
        match self.space_of(block_id, false) {
            Err(e) => Err(e),
            Ok(ptr) => Ok(block.registered_memory(ptr)),
        }
    }

    /// The memory that a copy of a block moves.
    fn copy_target_of(&self, block_id: u64) -> (r: Result<PolarisRmPhysProbeTarget, i32>)
        ensures
            r == copy_target(self@, block_id),
    {
        if let Some(i) = self.find_block(block_id) {
            let block = self.blocks[i];
            if block.state == PolarisBlockState::OffloadPending && block.has_rm_backing() {
                return match self.copy_space_of(block_id) {
                    Err(e) => Err(e),
                    Ok(ptr) => Ok(block.registered_memory(ptr)),
                };
            }
        }
        self.snapshot_rm_phys_probe_target(block_id)
    }

    /// The part of a block's memory that a probe is about.
    fn probe_range(&self, block_id: u64, offset: u64, length: u64) -> (r: Result<
        (PolarisRmPhysProbeTarget, u64),
        i32,
    >)
        ensures
            r == probe_span(self@, block_id, offset, length),
    {
        if block_id == 0 {
            return Err(EINVAL);
        }
        part_of(self.snapshot_rm_phys_probe_target(block_id), offset, length)
    }

    /// Say which memory a probe is about; `probe_rm_phys_reply` makes the answer.
    pub fn probe_rm_phys(&self, arg: PolarisProbeRmPhysArg) -> (r: Result<
        (PolarisRmPhysProbeTarget, u64),
        i32,
    >)
        ensures
            r == probe_span(self@, arg.block_id, arg.offset, arg.length),
    {
        self.probe_range(arg.block_id, arg.offset, arg.length)
    }

    /// Say which memory a pattern test is about; `probe_rm_copy_reply` makes the
    /// answer.
    pub fn probe_rm_copy(&self, arg: PolarisProbeRmCopyArg) -> (r: Result<
        (PolarisRmPhysProbeTarget, u64),
        i32,
    >)
        ensures
            r == probe_span(self@, arg.block_id, arg.offset, arg.length),
    {
        self.probe_range(arg.block_id, arg.offset, arg.length)
    }

    /// Say which memory a copy is about; `rm_copy_reply` makes the answer. The
    /// host address and the direction have to be proper ones.
    pub fn rm_copy(&self, arg: PolarisRmCopyArg) -> (r: Result<(PolarisRmPhysProbeTarget, u64), i32>)
        ensures
            r == copy_span(self@, arg),
    {
        if arg.block_id == 0 || arg.user_cpu_addr == 0 {
            return Err(EINVAL);
        }
        if arg.direction != POLARIS_RM_COPY_TO_CPU && arg.direction != POLARIS_RM_COPY_FROM_CPU {
            return Err(EINVAL);
        }
        if arg.rm_control_fd == 0 && arg.rm_h_client == 0 && arg.rm_h_memory == 0 {
            return part_of(self.copy_target_of(arg.block_id), arg.offset, arg.length);
        }
        let i: usize = match self.find_block(arg.block_id) {
            Some(i) => i,
            None => {
                return Err(ENOENT);
            },
        };
        let block = self.blocks[i];
        let ptr: u64 = match self.copy_space_of(arg.block_id) {
            Ok(ptr) => ptr,
            Err(e) => {
                return Err(e);
            },
        };
        let query_length: u64 = if arg.length == 0 {
            block.size_bytes
        } else {
            arg.length
        };
        if query_length == 0 {
            return Err(EINVAL);
        }
        Ok(
            (
                PolarisRmPhysProbeTarget {
                    block_id: block.block_id,
                    gpu_id: block.home_gpu,
                    gpu_va_space_ptr: ptr,
                    rm_control_fd: arg.rm_control_fd,
                    h_client: arg.rm_h_client,
                    h_memory: arg.rm_h_memory,
                    length: query_length,
                },
                query_length,
            ),
        )
    }
}

} // verus!
