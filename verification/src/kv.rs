//! KV memory that a process asks for itself: addresses at once, memory block by
//! block.

use crate::abi::{PolarisRegisterGpuArg, PolarisRegisterVaRangeArg, POLARIS_MAX_DECISIONS_PER_POLL};
use crate::cpu_pool::{CpuView, PAGE};
use crate::errno::EIO;
use crate::executor::{After, Bring, Brought, DeviceCall, Fill, Reply, Stage};
use crate::gpu::{GpuState, GpuView, VaAlloc};
use crate::num::{greatest, larger, sat_sub};
use crate::ranges::{
    can_give, lemma_snapped, lemma_taking, separated, snap_fits, snap_up, snapped, taking,
};
use crate::runtime::CpuPool;
use crate::seqs::{keys_of, lists};
use crate::text::{decimal, hexadecimal, push_decimal, push_hexadecimal, push_str};
use std::collections::HashMap;
use vstd::prelude::*;
use vstd::string::*;

verus! {

broadcast use vstd::std_specs::hash::group_hash_axioms;

// ─── Settings ───────────────────────────────────────────────────────────────

/// How a runtime is set up.
#[derive(Clone, Copy, Debug, PartialEq, Eq)]
pub struct RuntimeConfig {
    pub gpu_id: u32,
    pub device_ordinal: i32,
    pub total_bytes: u64,
    pub budget_bytes: u64,
    pub cpu_pool_bytes: u64,
    pub va_reserve_bytes: u64,
    pub block_size: u64,
}

/// What a runtime has.
#[derive(Clone, Copy, Debug, PartialEq, Eq)]
pub struct RuntimeInfo {
    pub va_base: u64,
    pub va_size: u64,
    pub granule: u64,
    pub cpu_pool_base: u64,
    pub cpu_pool_bytes: u64,
}

/// KV memory that was asked for.
#[derive(Clone, Copy, Debug, PartialEq, Eq)]
pub struct KvAllocationInfo {
    pub va: u64,
    pub size: u64,
    pub block_size: u64,
    pub block_count: u64,
}

/// How a runtime is set up, as C sees it.
#[derive(Clone, Copy, Debug, PartialEq, Eq)]
pub struct PolarisRuntimeConfig {
    pub gpu_id: u32,
    pub device_ordinal: i32,
    pub total_bytes: u64,
    pub budget_bytes: u64,
    pub cpu_pool_bytes: u64,
    pub va_reserve_bytes: u64,
    pub block_size: u64,
    pub flags: u32,
}

/// What a runtime has, as C sees it.
#[derive(Clone, Copy, Debug, PartialEq, Eq)]
pub struct PolarisRuntimeInfo {
    pub va_base: u64,
    pub va_size: u64,
    pub granule: u64,
    pub cpu_pool_base: u64,
    pub cpu_pool_bytes: u64,
}

/// KV memory that was asked for, as C sees it.
#[derive(Clone, Copy, Debug, PartialEq, Eq)]
pub struct PolarisKvAllocation {
    pub va: u64,
    pub size: u64,
    pub block_size: u64,
    pub block_count: u64,
}

impl PolarisRuntimeConfig {
    /// The settings without what only C sees.
    pub fn config(&self) -> (r: RuntimeConfig)
        ensures
            r == (RuntimeConfig {
                gpu_id: self.gpu_id,
                device_ordinal: self.device_ordinal,
                total_bytes: self.total_bytes,
                budget_bytes: self.budget_bytes,
                cpu_pool_bytes: self.cpu_pool_bytes,
                va_reserve_bytes: self.va_reserve_bytes,
                block_size: self.block_size,
            }),
    {
        RuntimeConfig {
            gpu_id: self.gpu_id,
            device_ordinal: self.device_ordinal,
            total_bytes: self.total_bytes,
            budget_bytes: self.budget_bytes,
            cpu_pool_bytes: self.cpu_pool_bytes,
            va_reserve_bytes: self.va_reserve_bytes,
            block_size: self.block_size,
        }
    }
}

impl RuntimeInfo {
    /// The same, as C sees it.
    pub fn exported(&self) -> (r: PolarisRuntimeInfo)
        ensures
            r == (PolarisRuntimeInfo {
                va_base: self.va_base,
                va_size: self.va_size,
                granule: self.granule,
                cpu_pool_base: self.cpu_pool_base,
                cpu_pool_bytes: self.cpu_pool_bytes,
            }),
    {
        PolarisRuntimeInfo {
            va_base: self.va_base,
            va_size: self.va_size,
            granule: self.granule,
            cpu_pool_base: self.cpu_pool_base,
            cpu_pool_bytes: self.cpu_pool_bytes,
        }
    }
}

impl KvAllocationInfo {
    /// The same, as C sees it.
    pub fn exported(&self) -> (r: PolarisKvAllocation)
        ensures
            r == (PolarisKvAllocation {
                va: self.va,
                size: self.size,
                block_size: self.block_size,
                block_count: self.block_count,
            }),
    {
        PolarisKvAllocation {
            va: self.va,
            size: self.size,
            block_size: self.block_size,
            block_count: self.block_count,
        }
    }
}

impl RuntimeConfig {
    /// How many addresses are reserved: at least a granule, in whole granules.
    pub open spec fn va_bytes(self, granule: u64) -> u64 {
        snapped(greatest(self.va_reserve_bytes, granule), granule)
    }

    /// How much host memory is pinned: whole pages.
    pub open spec fn pool_bytes(self) -> u64 {
        snapped(self.cpu_pool_bytes, PAGE)
    }

    /// Whether these sizes can be computed.
    pub open spec fn fits(self, granule: u64) -> bool {
        snap_fits(greatest(self.va_reserve_bytes, granule), granule) && snap_fits(
            self.cpu_pool_bytes,
            PAGE,
        )
    }

    /// How many addresses to reserve and how much host memory to pin.
    pub fn sizes(&self, granule: u64) -> (r: (u64, u64))
        requires
            self.fits(granule),
        ensures
            r == (self.va_bytes(granule), self.pool_bytes()),
    {
        (
            snap_up(larger(self.va_reserve_bytes, granule), granule),
            snap_up(self.cpu_pool_bytes, PAGE),
        )
    }

    /// What the device is told of the GPU and of its addresses.
    pub fn register_args(&self, va_base: u64, va_size: u64) -> (r: (
        PolarisRegisterGpuArg,
        PolarisRegisterVaRangeArg,
    ))
        ensures
            r.0 == (PolarisRegisterGpuArg {
                gpu_id: self.gpu_id,
                total_bytes: self.total_bytes,
                budget_bytes: self.budget_bytes,
                cpu_pool_bytes: self.cpu_pool_bytes,
                numa_node: 0,
                _reserved: 0,
                _reserved2: [0u64, 0u64],
            }),
            r.1 == (PolarisRegisterVaRangeArg {
                range_id: 0,
                gpu_id: self.gpu_id,
                flags: 0,
                base: va_base,
                length: va_size,
                block_size: self.block_size,
                _reserved: [0u64, 0u64, 0u64, 0u64],
            }),
    {
        (
            crate::daemon::register_gpu_arg(
                self.gpu_id,
                self.total_bytes,
                self.budget_bytes,
                self.cpu_pool_bytes,
            ),
            crate::daemon::register_va_range_arg(self.gpu_id, va_base, va_size, self.block_size),
        )
    }
}

/// How many of the decisions that the device says it handed out there are.
pub fn decisions_in_batch(count: u32) -> (r: usize)
    ensures
        r == (if count <= POLARIS_MAX_DECISIONS_PER_POLL {
            count as int
        } else {
            POLARIS_MAX_DECISIONS_PER_POLL as int
        }),
{
    if (count as usize) <= POLARIS_MAX_DECISIONS_PER_POLL {
        count as usize
    } else {
        POLARIS_MAX_DECISIONS_PER_POLL
    }
}

/// Text for C, where a zero ends a text: zeros become spaces.
pub open spec fn without_zeros(s: Seq<u8>) -> Seq<u8> {
    Seq::new(
        s.len(),
        |i: int|
            if s[i] == 0 {
                32u8
            } else {
                s[i]
            },
    )
}

/// Text for C, where a zero ends a text: zeros become spaces.
pub fn sanitize(s: &[u8]) -> (r: Vec<u8>)
    ensures
        r@ == without_zeros(s@),
{
    let mut out: Vec<u8> = Vec::new();
    let mut i: usize = 0;
    while i < s.len()
        invariant
            i <= s@.len(),
            out@ == without_zeros(s@).take(i as int),
        decreases s@.len() - i,
    {
        let b = if s[i] == 0 {
            32u8
        } else {
            s[i]
        };
        out.push(b);
        i += 1;
        assert(out@ =~= without_zeros(s@).take(i as int));
    }
    assert(out@ =~= without_zeros(s@));
    out
}

/// The number that C is handed for a failure: an input/output error, or the
/// error number without its sign, negated.
pub open spec fn code_for_c(errno: Option<i32>) -> int {
    match errno {
        Some(e) => if e < 0 {
            e as int
        } else {
            -e
        },
        None => -EIO,
    }
}

/// The number that C is handed for a failure: an input/output error, or the
/// error number without its sign, negated.
pub fn error_code(errno: Option<i32>) -> (r: i32)
    requires
        errno matches Some(e) ==> e > i32::MIN,
    ensures
        r == code_for_c(errno),
{
    match errno {
        Some(e) => if e < 0 {
            e
        } else {
            -e
        },
        None => -EIO,
    }
}

// ─── Failures ───────────────────────────────────────────────────────────────

/// Why KV memory could not be had, or not be given back.
#[derive(Clone, Copy, PartialEq, Eq, Structural, Debug)]
pub enum KvError {
    ZeroSize,
    Exhausted { size: u64, alignment: u64 },
    Unknown { va: u64 },
    /// The context could not be made current.
    Context,
    Create { block: usize, vaddr: u64 },
    MapBlock { block: usize, vaddr: u64 },
    UnmapBlock { block: usize, vaddr: u64 },
    Release { block: usize, handle: u64 },
}

/// A block and a number in hexadecimal, between words.
pub open spec fn block_message(
    before: Seq<u8>,
    block: usize,
    between: Seq<u8>,
    number: u64,
) -> Seq<u8> {
    before + decimal(block as nat) + between + hexadecimal(number as nat) + " failed: ".spec_bytes()
}

/// Append a block and a number in hexadecimal, between words.
fn push_block_message(out: &mut Vec<u8>, before: &str, block: usize, between: &str, number: u64)
    requires
        old(out)@.len() == 0,
    ensures
        final(out)@ == block_message(before.spec_bytes(), block, between.spec_bytes(), number),
{
    push_str(out, before);
    push_decimal(out, block as u64);
    push_str(out, between);
    push_hexadecimal(out, number);
    push_str(out, " failed: ");
    assert(out@ =~= block_message(before.spec_bytes(), block, between.spec_bytes(), number));
}

impl KvError {
    /// The failure in words. What the driver says of a failed call follows.
    pub open spec fn message(self) -> Seq<u8> {
        match self {
            KvError::ZeroSize => "KV allocation size must be non-zero".spec_bytes(),
            KvError::Exhausted { size, alignment } =>
                "POLARIS KV VA pool exhausted: requested ".spec_bytes() + decimal(size as nat)
                    + " bytes, alignment ".spec_bytes() + decimal(alignment as nat),
            KvError::Unknown { va } => "unknown POLARIS KV allocation at 0x".spec_bytes()
                + hexadecimal(va as nat),
            KvError::Context => "cuCtxPushCurrent failed: ".spec_bytes(),
            KvError::Create { block, vaddr } => block_message(
                "POLARIS KV cuMemCreate block ".spec_bytes(),
                block,
                " at 0x".spec_bytes(),
                vaddr,
            ),
            KvError::MapBlock { block, vaddr } => block_message(
                "POLARIS KV map block ".spec_bytes(),
                block,
                " at 0x".spec_bytes(),
                vaddr,
            ),
            KvError::UnmapBlock { block, vaddr } => block_message(
                "POLARIS KV unmap block ".spec_bytes(),
                block,
                " at 0x".spec_bytes(),
                vaddr,
            ),
            KvError::Release { block, handle } => block_message(
                "POLARIS KV release block ".spec_bytes(),
                block,
                " handle 0x".spec_bytes(),
                handle,
            ),
        }
    }

    /// The failure in words. What the driver says of a failed call follows.
    pub fn text(self) -> (r: Vec<u8>)
        ensures
            r@ == self.message(),
    {
        let mut out: Vec<u8> = Vec::new();
        match self {
            KvError::ZeroSize => {
                push_str(&mut out, "KV allocation size must be non-zero");
                assert(out@ =~= self.message());
            },
            KvError::Exhausted { size, alignment } => {
                push_str(&mut out, "POLARIS KV VA pool exhausted: requested ");
                push_decimal(&mut out, size);
                push_str(&mut out, " bytes, alignment ");
                push_decimal(&mut out, alignment);
                assert(out@ =~= self.message());
            },
            KvError::Unknown { va } => {
                push_str(&mut out, "unknown POLARIS KV allocation at 0x");
                push_hexadecimal(&mut out, va);
                assert(out@ =~= self.message());
            },
            KvError::Context => {
                push_str(&mut out, "cuCtxPushCurrent failed: ");
                assert(out@ =~= self.message());
            },
            KvError::Create { block, vaddr } => {
                push_block_message(
                    &mut out,
                    "POLARIS KV cuMemCreate block ",
                    block,
                    " at 0x",
                    vaddr,
                );
            },
            KvError::MapBlock { block, vaddr } => {
                push_block_message(&mut out, "POLARIS KV map block ", block, " at 0x", vaddr);
            },
            KvError::UnmapBlock { block, vaddr } => {
                push_block_message(&mut out, "POLARIS KV unmap block ", block, " at 0x", vaddr);
            },
            KvError::Release { block, handle } => {
                push_block_message(
                    &mut out,
                    "POLARIS KV release block ",
                    block,
                    " handle 0x",
                    handle,
                );
            },
        }
        out
    }
}

// ─── What a runtime keeps ───────────────────────────────────────────────────

/// KV memory: its addresses, and the memory handle of each block; zero where a
/// block has none.
pub struct ExplicitKvAlloc {
    pub va: u64,
    pub size: u64,
    pub block_size: u64,
    pub handles: Vec<u64>,
}

/// KV memory, as mathematical values.
#[verifier::ext_equal]
pub struct KvView {
    pub va: u64,
    pub size: u64,
    pub block_size: u64,
    pub handles: Seq<u64>,
}

impl View for ExplicitKvAlloc {
    type V = KvView;

    open spec fn view(&self) -> KvView {
        KvView {
            va: self.va,
            size: self.size,
            block_size: self.block_size,
            handles: self.handles@,
        }
    }
}

impl KvView {
    /// The blocks end where addresses end.
    pub open spec fn wf(self) -> bool {
        self.va + self.block_size * self.handles.len() <= u64::MAX
    }

    /// The address of a block.
    pub open spec fn block_at(self, i: int) -> int {
        self.va + i * self.block_size
    }

    /// With the handle of a block.
    pub open spec fn with(self, i: int, handle: u64) -> KvView {
        KvView { handles: self.handles.update(i, handle), ..self }
    }
}

/// KV memory as mathematical values.
pub open spec fn viewed() -> spec_fn(ExplicitKvAlloc) -> KvView {
    |a: ExplicitKvAlloc| a@
}

/// A GPU, a host pool, and the KV memory that the process asked for, by address.
pub struct RuntimeInner {
    pub gpu: GpuState,
    pub cpu_pool: CpuPool,
    pub explicit_kv: HashMap<u64, ExplicitKvAlloc>,
}

/// What a runtime keeps, as mathematical values.
#[verifier::ext_equal]
pub struct RuntimeView {
    pub gpu: GpuView,
    pub cpu: CpuView,
    pub kv: Map<u64, KvView>,
}

impl View for RuntimeInner {
    type V = RuntimeView;

    open spec fn view(&self) -> RuntimeView {
        RuntimeView {
            gpu: self.gpu@,
            cpu: self.cpu_pool@,
            kv: self.explicit_kv@.map_values(viewed()),
        }
    }
}

impl RuntimeView {
    /// The pool is in order, and blocks end where addresses end.
    pub open spec fn wf(self) -> bool {
        &&& self.gpu.wf()
        &&& forall|va: u64| #[trigger] self.kv.contains_key(va) ==> self.kv[va].wf()
    }
}

/// The size of the blocks that KV memory is made of.
pub open spec fn kv_block_size(granule: u64, alignment: u64) -> u64 {
    snapped(greatest(greatest(granule, alignment), 1), granule)
}

/// Asking for KV memory: addresses are taken, and no block has memory yet.
pub open spec fn allocating_kv(v: RuntimeView, size: u64, alignment: u64) -> (
    Result<KvAllocationInfo, KvError>,
    RuntimeView,
) {
    let block_size = kv_block_size(v.gpu.granule, alignment);
    let padded = snapped(size, block_size);
    if size == 0 {
        (Err(KvError::ZeroSize), v)
    } else {
        match taking(v.gpu.free, padded, greatest(greatest(alignment, v.gpu.granule), 1)) {
            (None, _) => (Err(KvError::Exhausted { size: padded, alignment }), v),
            (Some(va), left) => {
                let count = padded / block_size;
                (
                    Ok(KvAllocationInfo { va, size: padded, block_size, block_count: count }),
                    RuntimeView {
                        gpu: GpuView { free: left, ..v.gpu },
                        kv: v.kv.insert(
                            va,
                            KvView {
                                va,
                                size: padded,
                                block_size,
                                handles: Seq::new(count as nat, |i: int| 0u64),
                            },
                        ),
                        ..v
                    },
                )
            },
        }
    }
}

/// Whether the sizes of KV memory can be computed.
pub open spec fn kv_fits(v: RuntimeView, size: u64, alignment: u64) -> bool {
    let wanted = greatest(greatest(v.gpu.granule, alignment), 1);
    &&& snap_fits(wanted, v.gpu.granule)
    &&& snap_fits(size, kv_block_size(v.gpu.granule, alignment))
    &&& snapped(size, kv_block_size(v.gpu.granule, alignment)) <= usize::MAX
}

/// How KV work goes on.
#[derive(Clone, Copy, Debug, PartialEq, Eq)]
pub enum KvStep {
    /// The driver is to be called, and the run goes on with its reply.
    Ask { call: DeviceCall, run: KvRun },
    /// It is done.
    Finish { after: After, result: Result<(), KvError> },
}

/// KV work under way.
#[derive(Clone, Copy, Debug, PartialEq, Eq)]
pub enum KvRun {
    /// Memory is brought up for a block.
    Up { va: u64, block: usize, bring: Bring },
    /// A block is unmapped, then its memory given back.
    Down { va: u64, block: usize, unmapped: bool, first_error: Option<KvError>, free: bool },
}

/// The next block without memory.
pub open spec fn next_without(handles: Seq<u64>, i: int) -> int
    decreases handles.len() - i,
{
    if 0 <= i < handles.len() && handles[i] != 0 {
        next_without(handles, i + 1)
    } else {
        i
    }
}

/// The next block with memory.
pub open spec fn next_with(handles: Seq<u64>, i: int) -> int
    decreases handles.len() - i,
{
    if 0 <= i < handles.len() && handles[i] == 0 {
        next_with(handles, i + 1)
    } else {
        i
    }
}

/// Bringing memory up for the blocks of KV memory from one on: the next block
/// that has none, or the end.
pub open spec fn bringing_kv(a: KvView, from: int) -> KvStep {
    let i = next_without(a.handles, from);
    if i >= a.handles.len() {
        KvStep::Finish { after: After::Nothing, result: Ok(()) }
    } else {
        let bring = Bring {
            stage: Stage::Create,
            vaddr: a.block_at(i) as u64,
            size: a.block_size,
            phys: 0,
            fill: Fill::Nothing,
        };
        KvStep::Ask {
            call: bring.call(),
            run: KvRun::Up { va: a.va, block: i as usize, bring },
        }
    }
}

/// How bringing memory up goes on after a reply.
pub open spec fn kv_brought(v: RuntimeView, va: u64, block: usize, bring: Bring, reply: Reply) -> (
    KvStep,
    RuntimeView,
) {
    match bring.next(reply) {
        Brought::Ask { call, bring: next } => (
            KvStep::Ask { call, run: KvRun::Up { va, block, bring: next } },
            v,
        ),
        Brought::Failed { after, .. } => (
            KvStep::Finish {
                after,
                result: Err(
                    if bring.stage is Create {
                        KvError::Create { block, vaddr: bring.vaddr }
                    } else {
                        KvError::MapBlock { block, vaddr: bring.vaddr }
                    },
                ),
            },
            v,
        ),
        Brought::Up { phys } => {
            let a = v.kv[va].with(block as int, phys);
            (
                bringing_kv(a, block + 1),
                RuntimeView {
                    gpu: GpuView {
                        used_bytes: (v.gpu.used_bytes + a.block_size) as u64,
                        ..v.gpu
                    },
                    kv: v.kv.insert(va, a),
                    ..v
                },
            )
        },
    }
}

/// Giving the memory of KV memory back from a block on: the next block that has
/// some, or the end. Where the addresses go back too, they do so at the end.
pub open spec fn releasing_kv(
    v: RuntimeView,
    va: u64,
    from: int,
    first_error: Option<KvError>,
    free: bool,
) -> (KvStep, RuntimeView) {
    let a = v.kv[va];
    let i = next_with(a.handles, from);
    if i >= a.handles.len() {
        (
            KvStep::Finish {
                after: After::Nothing,
                result: match first_error {
                    Some(e) => Err(e),
                    None => Ok(()),
                },
            },
            if free {
                RuntimeView {
                    gpu: v.gpu.with_given(a.va, a.size),
                    kv: v.kv.remove(va),
                    ..v
                }
            } else {
                v
            },
        )
    } else {
        (
            KvStep::Ask {
                call: DeviceCall::UnmapMemory {
                    vaddr: a.block_at(i) as u64,
                    size: a.block_size,
                },
                run: KvRun::Down { va, block: i as usize, unmapped: false, first_error, free },
            },
            v,
        )
    }
}

/// The first error stays.
pub open spec fn or_error(first: Option<KvError>, reply: Reply, e: KvError) -> Option<KvError> {
    match first {
        Some(f) => Some(f),
        None => if reply.errno != 0 {
            Some(e)
        } else {
            None
        },
    }
}

/// How giving memory back goes on after a reply.
pub open spec fn kv_released(
    v: RuntimeView,
    va: u64,
    block: usize,
    unmapped: bool,
    first_error: Option<KvError>,
    free: bool,
    reply: Reply,
) -> (KvStep, RuntimeView) {
    let a = v.kv[va];
    let handle = a.handles[block as int];
    if !unmapped {
        (
            KvStep::Ask {
                call: DeviceCall::ReleasePhysical { handle },
                run: KvRun::Down {
                    va,
                    block,
                    unmapped: true,
                    first_error: or_error(
                        first_error,
                        reply,
                        KvError::UnmapBlock { block, vaddr: a.block_at(block as int) as u64 },
                    ),
                    free,
                },
            },
            v,
        )
    } else {
        let w = RuntimeView {
            gpu: GpuView { used_bytes: sat_sub(v.gpu.used_bytes, a.block_size), ..v.gpu },
            kv: v.kv.insert(va, a.with(block as int, 0)),
            ..v
        };
        releasing_kv(
            w,
            va,
            block + 1,
            or_error(first_error, reply, KvError::Release { block, handle }),
            free,
        )
    }
}

/// Whether KV work can go on with any reply.
pub open spec fn kv_run_fits(v: RuntimeView, run: KvRun) -> bool {
    &&& v.wf()
    &&& match run {
        KvRun::Up { va, block, bring } => {
            &&& v.kv.contains_key(va)
            &&& v.kv[va].va == va
            &&& block < v.kv[va].handles.len()
            &&& bring.size == v.kv[va].block_size
            &&& v.gpu.used_bytes + v.kv[va].block_size * (v.kv[va].handles.len() - block)
                <= u64::MAX
        },
        KvRun::Down { va, block, free, .. } => {
            &&& v.kv.contains_key(va)
            &&& block < v.kv[va].handles.len()
            &&& free ==> can_give(v.gpu.free, v.kv[va].va, v.kv[va].size)
        },
    }
}

/// The next block without memory is at or behind where the search starts.
pub proof fn lemma_next_without(handles: Seq<u64>, i: int)
    requires
        0 <= i <= handles.len(),
    ensures
        i <= next_without(handles, i) <= handles.len(),
        forall|k: int| i <= k < next_without(handles, i) ==> #[trigger] handles[k] != 0,
        next_without(handles, i) < handles.len() ==> handles[next_without(handles, i)] == 0,
    decreases handles.len() - i,
{
    if i < handles.len() && handles[i] != 0 {
        lemma_next_without(handles, i + 1);
    }
}

/// The next block with memory is at or behind where the search starts.
pub proof fn lemma_next_with(handles: Seq<u64>, i: int)
    requires
        0 <= i <= handles.len(),
    ensures
        i <= next_with(handles, i) <= handles.len(),
        forall|k: int| i <= k < next_with(handles, i) ==> #[trigger] handles[k] == 0,
        next_with(handles, i) < handles.len() ==> handles[next_with(handles, i)] != 0,
    decreases handles.len() - i,
{
    if i < handles.len() && handles[i] == 0 {
        lemma_next_with(handles, i + 1);
    }
}

/// A block lies between the start and the end of the blocks.
proof fn lemma_block_at(a: KvView, i: int)
    requires
        a.wf(),
        0 <= i <= a.handles.len(),
    ensures
        a.va <= a.block_at(i) <= u64::MAX,
        0 <= i * a.block_size <= u64::MAX,
{
    assert(0 <= i * a.block_size <= a.block_size * a.handles.len()) by (nonlinear_arith)
        requires
            0 <= i <= a.handles.len(),
            0 <= a.block_size,
    ;
}

impl ExplicitKvAlloc {
    /// The address of a block.
    fn vaddr_of(&self, i: usize) -> (r: u64)
        requires
            self@.wf(),
            i < self@.handles.len(),
        ensures
            r == self@.block_at(i as int),
    {
        proof {
            lemma_block_at(self@, i as int);
        }
        self.va + (i as u64) * self.block_size
    }

    /// Begin to bring memory up for the next block that has none.
    fn bring_next(&self, from: usize) -> (r: KvStep)
        requires
            self@.wf(),
            from <= self@.handles.len(),
        ensures
            r == bringing_kv(self@, from as int),
            r matches KvStep::Ask { run, .. } ==> (run matches KvRun::Up { va, block, bring }
                && va == self.va && from <= block < self@.handles.len() && bring.size
                == self.block_size),
    {
        let mut i: usize = from;
        while i < self.handles.len() && self.handles[i] != 0
            invariant
                from <= i <= self@.handles.len(),
                next_without(self@.handles, from as int) == next_without(self@.handles, i as int),
            decreases self@.handles.len() - i,
        {
            i += 1;
        }
        if i >= self.handles.len() {
            return KvStep::Finish { after: After::Nothing, result: Ok(()) };
        }
        let bring = Bring::new(self.vaddr_of(i), self.block_size, Fill::Nothing);
        KvStep::Ask { call: bring.to_call(), run: KvRun::Up { va: self.va, block: i, bring } }
    }

    /// The next block that has memory.
    fn find_with(&self, from: usize) -> (r: usize)
        requires
            from <= self@.handles.len(),
        ensures
            r == next_with(self@.handles, from as int),
            from <= r <= self@.handles.len(),
    {
        let mut i: usize = from;
        while i < self.handles.len() && self.handles[i] == 0
            invariant
                from <= i <= self@.handles.len(),
                next_with(self@.handles, from as int) == next_with(self@.handles, i as int),
            decreases self@.handles.len() - i,
        {
            i += 1;
        }
        i
    }
}

impl RuntimeInner {
    /// What the runtime has.
    pub fn info(&self) -> (r: RuntimeInfo)
        ensures
            r == (RuntimeInfo {
                va_base: self@.gpu.va_base,
                va_size: self@.gpu.va_size,
                granule: self@.gpu.granule,
                cpu_pool_base: self@.cpu.base,
                cpu_pool_bytes: self@.cpu.total,
            }),
    {
        RuntimeInfo {
            va_base: self.gpu.vas.base,
            va_size: self.gpu.vas.size,
            granule: self.gpu.granule,
            cpu_pool_base: self.cpu_pool.base,
            cpu_pool_bytes: self.cpu_pool.total,
        }
    }

    /// A runtime on reserved addresses and pinned memory.
    pub fn new(
        cfg: &RuntimeConfig,
        granule: u64,
        va_base: u64,
        va_size: u64,
        cpu_pool_base: u64,
        cpu_pool_bytes: u64,
    ) -> (r: RuntimeInner)
        requires
            va_base + va_size <= u64::MAX,
            cpu_pool_base + cpu_pool_bytes <= u64::MAX,
        ensures
            r@.wf(),
            r@.cpu.wf(),
            r@.kv == Map::<u64, KvView>::empty(),
            r@.gpu == (GpuView {
                gpu_id: cfg.gpu_id,
                total_bytes: cfg.total_bytes,
                used_bytes: 0,
                budget_bytes: cfg.budget_bytes,
                cpu_pool_bytes,
                cpu_pool_used_bytes: 0,
                cpu_pool_base,
                device_ordinal: cfg.device_ordinal,
                va_base,
                va_size,
                granule,
                free: seq![(va_base, va_size)],
                handles: Map::empty(),
                vas: Map::empty(),
            }),
            r@.cpu.base == cpu_pool_base,
            r@.cpu.total == cpu_pool_bytes,
            r@.cpu.used == 0,
            r@.cpu.balanced(),
            r@.cpu.allocations == Map::<u64, u64>::empty(),
    {
        let explicit_kv: HashMap<u64, ExplicitKvAlloc> = HashMap::new();
        proof {
            assert(explicit_kv@.map_values(viewed()) =~= Map::<u64, KvView>::empty());
        }
        RuntimeInner {
            gpu: GpuState::new(
                cfg.gpu_id,
                cfg.device_ordinal,
                va_base,
                va_size,
                granule,
                cfg.total_bytes,
                cfg.budget_bytes,
                cpu_pool_bytes,
                cpu_pool_base,
            ),
            cpu_pool: CpuPool::new(cpu_pool_base, cpu_pool_bytes),
            explicit_kv,
        }
    }

    /// Ask for KV memory.
    pub fn alloc_kv(&mut self, size: u64, alignment: u64) -> (r: Result<KvAllocationInfo, KvError>)
        requires
            old(self)@.wf(),
            kv_fits(old(self)@, size, alignment),
        ensures
            (r, final(self)@) == allocating_kv(old(self)@, size, alignment),
            final(self)@.wf(),
            r matches Ok(info) ==> can_give(final(self)@.gpu.free, info.va, info.size),
    {
        if size == 0 {
            return Err(KvError::ZeroSize);
        }
        let ghost before = self@;
        let granule = self.gpu.granule;
        let wanted = larger(larger(granule, alignment), 1);
        let block_size = snap_up(wanted, granule);
        proof {
            lemma_snapped(wanted, granule);
        }
        let padded = snap_up(size, block_size);
        proof {
            lemma_taking(self@.gpu.free, padded, greatest(greatest(alignment, granule), 1));
        }
        let va = match self.gpu.vas.allocate(padded, larger(alignment, granule)) {
            Some(va) => va,
            None => {
                return Err(KvError::Exhausted { size: padded, alignment });
            },
        };
        let block_count = padded / block_size;
        let handles = zeros(block_count as usize);
        let alloc = ExplicitKvAlloc { va, size: padded, block_size, handles };
        proof {
            assert(block_size * (padded / block_size) <= padded) by (nonlinear_arith)
                requires
                    block_size > 0,
                    padded >= 0,
            ;
            assert(alloc@.wf());
        }
        let ghost a = alloc@;
        let ghost kv = self.explicit_kv@;
        self.explicit_kv.insert(va, alloc);
        proof {
            assert(kv.insert(va, alloc).map_values(viewed()) =~= kv.map_values(viewed()).insert(
                va,
                a,
            ));
            assert(self@.kv == before.kv.insert(va, a));
        }
        Ok(KvAllocationInfo { va, size: padded, block_size, block_count })
    }
}

/// So many zeros.
fn zeros(n: usize) -> (r: Vec<u64>)
    ensures
        r@ == Seq::new(n as nat, |i: int| 0u64),
{
    let mut out: Vec<u64> = Vec::new();
    let mut i: usize = 0;
    while i < n
        invariant
            i <= n,
            out@ == Seq::new(i as nat, |k: int| 0u64),
        decreases n - i,
    {
        out.push(0);
        i += 1;
        assert(out@ =~= Seq::new(i as nat, |k: int| 0u64));
    }
    out
}

// ─── Memory up and down ─────────────────────────────────────────────────────

/// Bringing memory up for all blocks of KV memory that have none.
pub open spec fn mapping_all(v: RuntimeView, va: u64, context_is_current: bool) -> KvStep {
    if !v.kv.contains_key(va) {
        KvStep::Finish { after: After::Nothing, result: Err(KvError::Unknown { va }) }
    } else if !context_is_current {
        KvStep::Finish { after: After::Nothing, result: Err(KvError::Context) }
    } else {
        bringing_kv(v.kv[va], 0)
    }
}

/// Giving the memory of all blocks of KV memory back.
pub open spec fn unmapping_all(v: RuntimeView, va: u64, context_is_current: bool) -> (
    KvStep,
    RuntimeView,
) {
    if !v.kv.contains_key(va) {
        (KvStep::Finish { after: After::Nothing, result: Err(KvError::Unknown { va }) }, v)
    } else if !context_is_current {
        (KvStep::Finish { after: After::Nothing, result: Err(KvError::Context) }, v)
    } else {
        releasing_kv(v, va, 0, None, false)
    }
}

/// Giving KV memory back with its addresses. It is forgotten even where the
/// context cannot be made current.
pub open spec fn freeing_all(v: RuntimeView, va: u64, context_is_current: bool) -> (
    KvStep,
    RuntimeView,
) {
    if !v.kv.contains_key(va) {
        (KvStep::Finish { after: After::Nothing, result: Err(KvError::Unknown { va }) }, v)
    } else if !context_is_current {
        (
            KvStep::Finish { after: After::Nothing, result: Err(KvError::Context) },
            RuntimeView { kv: v.kv.remove(va), ..v },
        )
    } else {
        releasing_kv(v, va, 0, None, true)
    }
}

/// How KV work goes on after a reply.
pub open spec fn kv_going_on(v: RuntimeView, run: KvRun, reply: Reply) -> (KvStep, RuntimeView) {
    match run {
        KvRun::Up { va, block, bring } => kv_brought(v, va, block, bring, reply),
        KvRun::Down { va, block, unmapped, first_error, free } => kv_released(
            v,
            va,
            block,
            unmapped,
            first_error,
            free,
            reply,
        ),
    }
}

impl RuntimeInner {
    /// Begin to bring memory up for all blocks of KV memory that have none.
    pub fn map_kv_all(&self, va: u64, context_is_current: bool) -> (r: KvStep)
        requires
            self@.wf(),
            self@.kv.contains_key(va) ==> {
                &&& self@.kv[va].va == va
                &&& self@.gpu.used_bytes + self@.kv[va].block_size * self@.kv[va].handles.len()
                    <= u64::MAX
            },
        ensures
            r == mapping_all(self@, va, context_is_current),
            r matches KvStep::Ask { run, .. } ==> kv_run_fits(self@, run),
    {
        match self.explicit_kv.get(&va) {
            None => KvStep::Finish { after: After::Nothing, result: Err(KvError::Unknown { va }) },
            Some(alloc) => {
                if !context_is_current {
                    return KvStep::Finish {
                        after: After::Nothing,
                        result: Err(KvError::Context),
                    };
                }
                proof {
                    assert(self@.kv[va] == alloc@);
                }
                let step = alloc.bring_next(0);
                proof {
                    if let KvStep::Ask { run: KvRun::Up { block, .. }, .. } = step {
                        lemma_fewer_blocks(alloc@, block as int);
                    }
                }
                step
            },
        }
    }

    /// Begin to give the memory of all blocks of KV memory back.
    pub fn unmap_kv(&mut self, va: u64, context_is_current: bool) -> (r: KvStep)
        requires
            old(self)@.wf(),
        ensures
            (r, final(self)@) == unmapping_all(old(self)@, va, context_is_current),
            final(self)@.wf(),
            r matches KvStep::Ask { run, .. } ==> kv_run_fits(final(self)@, run),
    {
        if !self.explicit_kv.contains_key(&va) {
            return KvStep::Finish { after: After::Nothing, result: Err(KvError::Unknown { va }) };
        }
        if !context_is_current {
            return KvStep::Finish { after: After::Nothing, result: Err(KvError::Context) };
        }
        self.release_next(va, 0, None, false)
    }

    /// Begin to give KV memory back with its addresses.
    pub fn free_kv(&mut self, va: u64, context_is_current: bool) -> (r: KvStep)
        requires
            old(self)@.wf(),
            old(self)@.kv.contains_key(va) ==> can_give(
                old(self)@.gpu.free,
                old(self)@.kv[va].va,
                old(self)@.kv[va].size,
            ),
        ensures
            (r, final(self)@) == freeing_all(old(self)@, va, context_is_current),
            final(self)@.wf(),
            r matches KvStep::Ask { run, .. } ==> kv_run_fits(final(self)@, run),
    {
        if !self.explicit_kv.contains_key(&va) {
            return KvStep::Finish { after: After::Nothing, result: Err(KvError::Unknown { va }) };
        }
        if !context_is_current {
            let ghost kv = self.explicit_kv@;
            self.explicit_kv.remove(&va);
            proof {
                assert(kv.remove(va).map_values(viewed()) =~= kv.map_values(viewed()).remove(va));
            }
            return KvStep::Finish { after: After::Nothing, result: Err(KvError::Context) };
        }
        self.release_next(va, 0, None, true)
    }

    /// Begin to give the memory of the next block back, or end.
    fn release_next(
        &mut self,
        va: u64,
        from: usize,
        first_error: Option<KvError>,
        free: bool,
    ) -> (r: KvStep)
        requires
            old(self)@.wf(),
            old(self)@.kv.contains_key(va),
            from <= old(self)@.kv[va].handles.len(),
            free ==> can_give(
                old(self)@.gpu.free,
                old(self)@.kv[va].va,
                old(self)@.kv[va].size,
            ),
        ensures
            (r, final(self)@) == releasing_kv(old(self)@, va, from as int, first_error, free),
            final(self)@.wf(),
            r matches KvStep::Ask { run, .. } ==> kv_run_fits(final(self)@, run),
    {
        let ghost before = self@;
        let ghost kv = self.explicit_kv@;
        match self.explicit_kv.remove(&va) {
            None => {
                assert(false);
                KvStep::Finish { after: After::Nothing, result: Err(KvError::Unknown { va }) }
            },
            Some(alloc) => {
                proof {
                    assert(alloc@ == before.kv[va]);
                    assert(kv.remove(va).map_values(viewed()) =~= kv.map_values(viewed()).remove(
                        va,
                    ));
                }
                let i = alloc.find_with(from);
                if i >= alloc.handles.len() {
                    let result = match first_error {
                        Some(e) => Err(e),
                        None => Ok(()),
                    };
                    if free {
                        self.gpu.vas.free(alloc.va, alloc.size);
                    } else {
                        self.put_back(va, alloc, Ghost(before.kv));
                        proof {
                            assert(before.kv.remove(va).insert(va, before.kv[va]) =~= before.kv);
                        }
                    }
                    return KvStep::Finish { after: After::Nothing, result };
                }
                let call = DeviceCall::UnmapMemory {
                    vaddr: alloc.vaddr_of(i),
                    size: alloc.block_size,
                };
                self.put_back(va, alloc, Ghost(before.kv));
                proof {
                    assert(before.kv.remove(va).insert(va, before.kv[va]) =~= before.kv);
                }
                KvStep::Ask {
                    call,
                    run: KvRun::Down { va, block: i, unmapped: false, first_error, free },
                }
            },
        }
    }

    /// Put KV memory back under its address.
    fn put_back(&mut self, va: u64, alloc: ExplicitKvAlloc, Ghost(all): Ghost<Map<u64, KvView>>)
        requires
            old(self)@.kv == all.remove(va),
        ensures
            final(self)@ == (RuntimeView {
                kv: all.remove(va).insert(va, alloc@),
                ..old(self)@
            }),
    {
        let ghost kv = self.explicit_kv@;
        let ghost a = alloc;
        self.explicit_kv.insert(va, alloc);
        proof {
            assert(kv.insert(va, a).map_values(viewed()) =~= kv.map_values(viewed()).insert(va, a@));
        }
    }

    /// Go on with KV work.
    pub fn resume_kv(&mut self, run: KvRun, reply: &Reply) -> (r: KvStep)
        requires
            kv_run_fits(old(self)@, run),
        ensures
            (r, final(self)@) == kv_going_on(old(self)@, run, *reply),
            final(self)@.wf(),
            r matches KvStep::Ask { run: next, .. } ==> kv_run_fits(final(self)@, next),
    {
        match run {
            KvRun::Up { va, block, bring } => self.resume_up(va, block, bring, reply),
            KvRun::Down { va, block, unmapped, first_error, free } => self.resume_down(
                va,
                block,
                unmapped,
                first_error,
                free,
                reply,
            ),
        }
    }

    /// Go on bringing memory up.
    fn resume_up(&mut self, va: u64, block: usize, bring: Bring, reply: &Reply) -> (r: KvStep)
        requires
            kv_run_fits(old(self)@, (KvRun::Up { va, block, bring })),
        ensures
            (r, final(self)@) == kv_brought(old(self)@, va, block, bring, *reply),
            final(self)@.wf(),
            r matches KvStep::Ask { run: next, .. } ==> kv_run_fits(final(self)@, next),
    {
        let ghost before = self@;
        match bring.step(reply) {
            Brought::Ask { call, bring: next } => KvStep::Ask {
                call,
                run: KvRun::Up { va, block, bring: next },
            },
            Brought::Failed { after, .. } => {
                let result = match bring.stage {
                    Stage::Create => Err(KvError::Create { block, vaddr: bring.vaddr }),
                    _ => Err(KvError::MapBlock { block, vaddr: bring.vaddr }),
                };
                KvStep::Finish { after, result }
            },
            Brought::Up { phys } => {
                let ghost kv = self.explicit_kv@;
                match self.explicit_kv.remove(&va) {
                    None => {
                        assert(false);
                        KvStep::Finish {
                            after: After::Nothing,
                            result: Err(KvError::Unknown { va }),
                        }
                    },
                    Some(alloc) => {
                        let mut alloc = alloc;
                        proof {
                            assert(alloc@ == before.kv[va]);
                            assert(kv.remove(va).map_values(viewed()) =~= kv.map_values(
                                viewed(),
                            ).remove(va));
                            lemma_one_block_less(before.kv[va], block as int);
                        }
                        let count = alloc.handles.len();
                        assert(block < count);
                        alloc.handles.set(block, phys);
                        self.gpu.used_bytes = self.gpu.used_bytes + alloc.block_size;
                        let step = alloc.bring_next(block + 1);
                        let ghost a = alloc@;
                        self.put_back(va, alloc, Ghost(before.kv));
                        proof {
                            assert(a =~= before.kv[va].with(block as int, phys));
                            assert(before.kv.remove(va).insert(va, a) =~= before.kv.insert(va, a));
                            if let KvStep::Ask { run: KvRun::Up { block: b, .. }, .. } = step {
                                lemma_blocks_between(a, block + 1, b as int);
                            }
                        }
                        step
                    },
                }
            },
        }
    }

    /// Go on giving memory back.
    fn resume_down(
        &mut self,
        va: u64,
        block: usize,
        unmapped: bool,
        first_error: Option<KvError>,
        free: bool,
        reply: &Reply,
    ) -> (r: KvStep)
        requires
            kv_run_fits(old(self)@, (KvRun::Down { va, block, unmapped, first_error, free })),
        ensures
            (r, final(self)@) == kv_released(
                old(self)@,
                va,
                block,
                unmapped,
                first_error,
                free,
                *reply,
            ),
            final(self)@.wf(),
            r matches KvStep::Ask { run: next, .. } ==> kv_run_fits(final(self)@, next),
    {
        let ghost before = self@;
        let ghost kv = self.explicit_kv@;
        match self.explicit_kv.remove(&va) {
            None => {
                assert(false);
                KvStep::Finish { after: After::Nothing, result: Err(KvError::Unknown { va }) }
            },
            Some(alloc) => {
                let mut alloc = alloc;
                proof {
                    assert(alloc@ == before.kv[va]);
                    assert(kv.remove(va).map_values(viewed()) =~= kv.map_values(viewed()).remove(
                        va,
                    ));
                }
                let handle = alloc.handles[block];
                if !unmapped {
                    let vaddr = alloc.vaddr_of(block);
                    let first_error = first_of(
                        first_error,
                        reply,
                        KvError::UnmapBlock { block, vaddr },
                    );
                    self.put_back(va, alloc, Ghost(before.kv));
                    proof {
                        assert(before.kv.remove(va).insert(va, before.kv[va]) =~= before.kv);
                    }
                    return KvStep::Ask {
                        call: DeviceCall::ReleasePhysical { handle },
                        run: KvRun::Down { va, block, unmapped: true, first_error, free },
                    };
                }
                let first_error = first_of(first_error, reply, KvError::Release { block, handle });
                let count = alloc.handles.len();
                assert(block < count);
                alloc.handles.set(block, 0);
                self.gpu.used_bytes = self.gpu.used_bytes.saturating_sub(alloc.block_size);
                let ghost a = alloc@;
                self.put_back(va, alloc, Ghost(before.kv));
                proof {
                    assert(a =~= before.kv[va].with(block as int, 0));
                    assert(before.kv.remove(va).insert(va, a) =~= before.kv.insert(va, a));
                }
                self.release_next(va, block + 1, first_error, free)
            },
        }
    }
}

/// The first error stays.
fn first_of(first: Option<KvError>, reply: &Reply, e: KvError) -> (r: Option<KvError>)
    ensures
        r == or_error(first, *reply, e),
{
    match first {
        Some(f) => Some(f),
        None => if reply.errno != 0 {
            Some(e)
        } else {
            None
        },
    }
}

/// Fewer blocks take up no more.
proof fn lemma_fewer_blocks(a: KvView, i: int)
    requires
        0 <= i <= a.handles.len(),
    ensures
        a.block_size * (a.handles.len() - i) <= a.block_size * a.handles.len(),
{
    assert(a.block_size * (a.handles.len() - i) <= a.block_size * a.handles.len())
        by (nonlinear_arith)
        requires
            0 <= i,
            0 <= a.block_size,
    ;
}

/// Blocks further on take up no more.
proof fn lemma_blocks_between(a: KvView, i: int, j: int)
    requires
        0 <= i <= j <= a.handles.len(),
    ensures
        a.block_size * (a.handles.len() - j) <= a.block_size * (a.handles.len() - i),
{
    assert(a.block_size * (a.handles.len() - j) <= a.block_size * (a.handles.len() - i))
        by (nonlinear_arith)
        requires
            0 <= i <= j,
            0 <= a.block_size,
    ;
}

/// The blocks from one on take up its size and that of those behind it.
proof fn lemma_one_block_less(a: KvView, i: int)
    requires
        0 <= i < a.handles.len(),
    ensures
        a.block_size * (a.handles.len() - i) == a.block_size + a.block_size * (a.handles.len() - (i
            + 1)),
        a.block_size * (a.handles.len() - (i + 1)) >= 0,
{
    let n = a.handles.len() - i;
    assert(a.block_size * n == a.block_size + a.block_size * (n - 1)) by (nonlinear_arith);
    assert(a.block_size * (n - 1) >= 0) by (nonlinear_arith)
        requires
            n >= 1,
            a.block_size >= 0,
    ;
}

// ─── Closing ────────────────────────────────────────────────────────────────

/// What takes down the first `n` blocks of KV memory, as far as they have any.
pub open spec fn taking_down(a: KvView, n: int) -> Seq<DeviceCall>
    decreases n,
{
    if n <= 0 {
        Seq::empty()
    } else if a.handles[n - 1] == 0 {
        taking_down(a, n - 1)
    } else {
        taking_down(a, n - 1).push(
            DeviceCall::UnmapMemory { vaddr: a.block_at(n - 1) as u64, size: a.block_size },
        ).push(DeviceCall::ReleasePhysical { handle: a.handles[n - 1] })
    }
}

/// What takes down KV memory, one piece after the other.
pub open spec fn taking_all_down(kv: Map<u64, KvView>, pieces: Seq<u64>) -> Seq<DeviceCall>
    decreases pieces.len(),
{
    if pieces.len() == 0 {
        Seq::empty()
    } else {
        let a = kv[pieces.last()];
        taking_all_down(kv, pieces.drop_last()) + taking_down(a, a.handles.len() as int)
    }
}

/// The call that takes away what is mapped for a block.
pub open spec fn unmap_of(va: VaAlloc) -> DeviceCall {
    DeviceCall::UnmapMemory { vaddr: va.vaddr, size: va.size }
}

/// The call that gives memory back.
pub open spec fn release_of(handle: u64) -> DeviceCall {
    DeviceCall::ReleasePhysical { handle }
}

/// What takes down pieces of KV memory, then what is mapped for some blocks, then
/// the memory that was made for some blocks.
pub open spec fn cleaning_up(
    v: RuntimeView,
    pieces: Seq<u64>,
    mapped: Seq<u64>,
    made: Seq<u64>,
) -> Seq<DeviceCall> {
    taking_all_down(v.kv, pieces) + mapped.map_values(|b: u64| unmap_of(v.gpu.vas[b]))
        + made.map_values(|b: u64| release_of(v.gpu.handles[b]))
}

impl ExplicitKvAlloc {
    /// Append the calls that take down the blocks.
    fn push_cleanup(&self, out: &mut Vec<DeviceCall>)
        requires
            self@.wf(),
        ensures
            final(out)@ == old(out)@ + taking_down(self@, self@.handles.len() as int),
    {
        let ghost before = out@;
        let ghost a = self@;
        let mut i: usize = 0;
        while i < self.handles.len()
            invariant
                a == self@,
                a.wf(),
                i <= a.handles.len(),
                out@ == before + taking_down(a, i as int),
            decreases a.handles.len() - i,
        {
            let handle = self.handles[i];
            if handle != 0 {
                out.push(
                    DeviceCall::UnmapMemory { vaddr: self.vaddr_of(i), size: self.block_size },
                );
                out.push(DeviceCall::ReleasePhysical { handle });
            }
            assert(out@ =~= before + taking_down(a, i as int + 1));
            i += 1;
        }
    }
}

impl RuntimeInner {
    /// What takes down everything that the runtime keeps, each thing once: KV
    /// memory first, then what decisions mapped, then the memory that they made.
    pub fn cleanup(&self) -> (r: Vec<DeviceCall>)
        requires
            self@.wf(),
        ensures
            exists|pieces: Seq<u64>, mapped: Seq<u64>, made: Seq<u64>|
                lists(pieces, self@.kv.dom()) && lists(mapped, self@.gpu.vas.dom()) && lists(
                    made,
                    self@.gpu.handles.dom(),
                ) && r@ == #[trigger] cleaning_up(self@, pieces, mapped, made),
    {
        broadcast use vstd::std_specs::hash::group_hash_axioms;

        let pieces = keys_of(&self.explicit_kv);
        let mapped = keys_of(&self.gpu.va_allocs);
        let made = keys_of(&self.gpu.phys_handles);
        let mut out: Vec<DeviceCall> = Vec::new();
        let mut i: usize = 0;
        while i < pieces.len()
            invariant
                i <= pieces@.len(),
                self@.wf(),
                lists(pieces@, self.explicit_kv@.dom()),
                out@ == taking_all_down(self@.kv, pieces@.take(i as int)),
            decreases pieces@.len() - i,
        {
            let va = pieces[i];
            assert(pieces@.contains(va));
            if let Some(a) = self.explicit_kv.get(&va) {
                assert(self@.kv.contains_key(va) && self@.kv[va] == a@);
                a.push_cleanup(&mut out);
            }
            assert(pieces@.take(i as int + 1).drop_last() =~= pieces@.take(i as int));
            i += 1;
        }
        assert(pieces@.take(i as int) =~= pieces@);
        let ghost first = out@;
        i = 0;
        while i < mapped.len()
            invariant
                i <= mapped@.len(),
                lists(mapped@, self.gpu.va_allocs@.dom()),
                out@ == first + mapped@.take(i as int).map_values(
                    |b: u64| unmap_of(self@.gpu.vas[b]),
                ),
            decreases mapped@.len() - i,
        {
            let block_id = mapped[i];
            assert(mapped@.contains(block_id));
            if let Some(va) = self.gpu.va_allocs.get(&block_id) {
                out.push(DeviceCall::UnmapMemory { vaddr: va.vaddr, size: va.size });
            }
            assert(out@ =~= first + mapped@.take(i as int + 1).map_values(
                |b: u64| unmap_of(self@.gpu.vas[b]),
            ));
            i += 1;
        }
        assert(mapped@.take(i as int) =~= mapped@);
        let ghost second = out@;
        i = 0;
        while i < made.len()
            invariant
                i <= made@.len(),
                lists(made@, self.gpu.phys_handles@.dom()),
                out@ == second + made@.take(i as int).map_values(
                    |b: u64| release_of(self@.gpu.handles[b]),
                ),
            decreases made@.len() - i,
        {
            let block_id = made[i];
            assert(made@.contains(block_id));
            if let Some(handle) = self.gpu.phys_handles.get(&block_id) {
                out.push(DeviceCall::ReleasePhysical { handle: *handle });
            }
            assert(out@ =~= second + made@.take(i as int + 1).map_values(
                |b: u64| release_of(self@.gpu.handles[b]),
            ));
            i += 1;
        }
        assert(made@.take(i as int) =~= made@);
        assert(self@.kv.dom() =~= self.explicit_kv@.dom());
        assert(out@ == cleaning_up(self@, pieces@, mapped@, made@));
        out
    }
}

// ─── What holds of KV memory ────────────────────────────────────────────────

/// KV memory that was asked for and given back at once leaves the pool with the
/// addresses it had, and nothing else behind; where there was room between the free
/// ranges, the whole runtime is the same.
pub proof fn law_alloc_then_free_kv_restores(v: RuntimeView, size: u64, alignment: u64)
    requires
        v.wf(),
        kv_fits(v, size, alignment),
        allocating_kv(v, size, alignment).0 is Ok,
        !v.kv.contains_key(allocating_kv(v, size, alignment).0->Ok_0.va),
    ensures
        ({
            let (info, w) = allocating_kv(v, size, alignment);
            let (step, x) = freeing_all(w, info->Ok_0.va, true);
            &&& step == (KvStep::Finish { after: After::Nothing, result: Ok(()) })
            &&& x.kv == v.kv
            &&& x.gpu.used_bytes == v.gpu.used_bytes
            &&& forall|a: int| #[trigger]
                crate::ranges::covers(x.gpu.free, a) <==> crate::ranges::covers(v.gpu.free, a)
            &&& separated(v.gpu.free) ==> x == v
        }),
{
    let (info, w) = allocating_kv(v, size, alignment);
    let va = info->Ok_0.va;
    let block_size = kv_block_size(v.gpu.granule, alignment);
    let padded = snapped(size, block_size);
    lemma_snapped(greatest(greatest(v.gpu.granule, alignment), 1), v.gpu.granule);
    let handles = Seq::new((padded / block_size) as nat, |i: int| 0u64);
    let a = KvView { va, size: padded, block_size, handles };
    assert(w.kv == v.kv.insert(va, a));
    assert(w.kv[va] == a);
    lemma_next_with(handles, 0);
    let n = next_with(handles, 0);
    if n < handles.len() {
        assert(handles[n] == 0);
    }
    crate::ranges::law_take_then_give_restores(
        v.gpu.free,
        padded,
        greatest(greatest(alignment, v.gpu.granule), 1),
    );
    assert(v.kv.insert(va, a).remove(va) =~= v.kv);
    let x = freeing_all(w, va, true).1;
    assert(x.kv =~= v.kv);
    if separated(v.gpu.free) {
        lemma_snapped(size, block_size);
        assert(padded > 0);
        assert(x.gpu.free == v.gpu.free);
        assert(x =~= v);
    }
}

/// When all memory was given back, no block has any.
pub proof fn law_unmapped_kv_has_no_memory(
    v: RuntimeView,
    va: u64,
    from: int,
    first_error: Option<KvError>,
)
    requires
        v.kv.contains_key(va),
        0 <= from <= v.kv[va].handles.len(),
        forall|k: int| 0 <= k < from ==> #[trigger] v.kv[va].handles[k] == 0,
        releasing_kv(v, va, from, first_error, false).0 is Finish,
    ensures
        forall|k: int| 0 <= k < v.kv[va].handles.len() ==> #[trigger] v.kv[va].handles[k] == 0,
{
    lemma_next_with(v.kv[va].handles, from);
}

/// When all memory was brought up, every block has some.
pub proof fn law_mapped_kv_has_memory(a: KvView, from: int)
    requires
        0 <= from <= a.handles.len(),
        forall|k: int| 0 <= k < from ==> #[trigger] a.handles[k] != 0,
        bringing_kv(a, from) is Finish,
    ensures
        forall|k: int| 0 <= k < a.handles.len() ==> #[trigger] a.handles[k] != 0,
{
    lemma_next_without(a.handles, from);
}

} // verus!
