//! One open handle of the device: the GPUs and addresses registered through it,
//! and what its closing takes away.

use crate::abi::{
    PolarisBlockState, PolarisRegisterGpuArg, PolarisRegisterVaRangeArg, PolarisSetPolicyArg,
    POLARIS_REGISTER_GPU_FLAG_TRANSIENT,
};
use crate::errno::{EINVAL, ENOENT, EPERM};
use crate::seqs::{any, find, retain};
use crate::state::{PolarisInner, PolarisView};
use crate::types::{PolarisBlock, PolarisGpu, PolarisVaSpace, SessionView};
use crate::vaspace::{va_space_is_not, without_contents};
use vstd::prelude::*;

verus! {

/// What was registered through one open handle.
pub struct PolarisDevice {
    /// Whether the handle registered as an executor.
    pub registered_gpu: bool,
    /// The GPUs that came into the table through the handle.
    pub inserted_gpus: Vec<u32>,
    pub va_gpu: u32,
    pub va_range_id: u64,
    pub v4_gpu: u32,
    pub v4_client: u64,
    pub v4_token: u64,
}

/// The value of an open handle.
#[verifier::ext_equal]
pub struct DeviceView {
    pub registered_gpu: bool,
    pub inserted_gpus: Seq<u32>,
    pub va_gpu: u32,
    pub va_range_id: u64,
    pub v4_gpu: u32,
    pub v4_client: u64,
    pub v4_token: u64,
}

impl View for PolarisDevice {
    type V = DeviceView;

    open spec fn view(&self) -> DeviceView {
        DeviceView {
            registered_gpu: self.registered_gpu,
            inserted_gpus: self.inserted_gpus@,
            va_gpu: self.va_gpu,
            va_range_id: self.va_range_id,
            v4_gpu: self.v4_gpu,
            v4_client: self.v4_client,
            v4_token: self.v4_token,
        }
    }
}

/// A handle through which nothing was registered yet.
pub open spec fn fresh_device() -> DeviceView {
    DeviceView {
        registered_gpu: false,
        inserted_gpus: Seq::empty(),
        va_gpu: 0,
        va_range_id: 0,
        v4_gpu: 0,
        v4_client: 0,
        v4_token: 0,
    }
}

// ─── GPUs ───────────────────────────────────────────────────────────────────

/// The registration is that of a passing user of a GPU, not of its keeper.
pub open spec fn transient(arg: PolarisRegisterGpuArg) -> bool {
    arg._reserved & POLARIS_REGISTER_GPU_FLAG_TRANSIENT != 0
}

/// A GPU after it is registered once more: its keeper's capacities replace the
/// known ones where they are not zero, a passing user's never do.
pub open spec fn registered_again(gpu: PolarisGpu, arg: PolarisRegisterGpuArg) -> PolarisGpu {
    if transient(arg) {
        PolarisGpu { healthy: true, ..gpu }
    } else {
        PolarisGpu {
            total_bytes: if arg.total_bytes != 0 {
                arg.total_bytes
            } else {
                gpu.total_bytes
            },
            budget_bytes: if arg.budget_bytes != 0 {
                arg.budget_bytes
            } else {
                gpu.budget_bytes
            },
            cpu_pool_total_bytes: if arg.cpu_pool_bytes != 0 {
                arg.cpu_pool_bytes
            } else {
                gpu.cpu_pool_total_bytes
            },
            healthy: true,
            ..gpu
        }
    }
}

/// A GPU that is registered for the first time.
pub open spec fn new_gpu(arg: PolarisRegisterGpuArg) -> PolarisGpu {
    PolarisGpu {
        gpu_id: arg.gpu_id,
        total_bytes: arg.total_bytes,
        used_bytes: 0,
        budget_bytes: arg.budget_bytes,
        pressure_score: 0,
        cpu_pool_total_bytes: arg.cpu_pool_bytes,
        cpu_pool_used_bytes: 0,
        va_range_id: 0,
        va_range_base: 0,
        va_range_length: 0,
        va_block_size: 0,
        va_range_flags: 0,
        va_range_registered: false,
        healthy: true,
        next_va_offset: 0,
    }
}

/// The state and handle after the handle counts as an executor.
pub open spec fn attaching(v: PolarisView, d: DeviceView) -> (PolarisView, DeviceView) {
    if d.registered_gpu {
        (v, d)
    } else {
        (
            PolarisView { daemon_attached: (v.daemon_attached + 1) as u32, ..v },
            DeviceView { registered_gpu: true, ..d },
        )
    }
}

/// What comes of registering a GPU. Its first registration has to give its
/// capacities.
pub open spec fn registering_gpu(v: PolarisView, d: DeviceView, arg: PolarisRegisterGpuArg) -> (
    Result<(), i32>,
    PolarisView,
    DeviceView,
) {
    match v.find_gpu(arg.gpu_id) {
        Some(g) => {
            let (w, e) = attaching(
                PolarisView { gpus: v.gpus.update(g, registered_again(v.gpus[g], arg)), ..v },
                d,
            );
            (Ok(()), w, e)
        },
        None => if arg.total_bytes == 0 || arg.budget_bytes == 0 {
            (Err(ENOENT), v, d)
        } else {
            let (w, e) = attaching(
                PolarisView { gpus: v.gpus.push(new_gpu(arg)), ..v },
                DeviceView { inserted_gpus: d.inserted_gpus.push(arg.gpu_id), ..d },
            );
            (Ok(()), w, e)
        },
    }
}

/// The number of a new address range: the GPU in the upper half.
pub open spec fn new_range_id(v: PolarisView, gpu_id: u32) -> u64 {
    ((gpu_id as u64) << 32) | v.next_range_id
}

/// What comes of handing over a range of addresses. A number is used up for an
/// unnamed range even where its GPU turns out to be unknown.
pub open spec fn registering_range(v: PolarisView, d: DeviceView, arg: PolarisRegisterVaRangeArg) -> (
    Result<PolarisRegisterVaRangeArg, i32>,
    PolarisView,
    DeviceView,
) {
    if !d.registered_gpu {
        (Err(EPERM), v, d)
    } else if arg.length == 0 || arg.block_size == 0 {
        (Err(EINVAL), v, d)
    } else {
        let id = if arg.range_id == 0 {
            new_range_id(v, arg.gpu_id)
        } else {
            arg.range_id
        };
        let w = if arg.range_id == 0 {
            PolarisView { next_range_id: (v.next_range_id + 1) as u64, ..v }
        } else {
            v
        };
        match w.find_gpu(arg.gpu_id) {
            None => (Err(ENOENT), w, d),
            Some(g) => (
                Ok(PolarisRegisterVaRangeArg { range_id: id, ..arg }),
                PolarisView {
                    gpus: w.gpus.update(
                        g,
                        PolarisGpu {
                            va_range_id: id,
                            va_range_base: arg.base,
                            va_range_length: arg.length,
                            va_block_size: arg.block_size,
                            va_range_flags: arg.flags,
                            va_range_registered: true,
                            ..w.gpus[g]
                        },
                    ),
                    ..w
                },
                DeviceView { va_gpu: arg.gpu_id, va_range_id: id, ..d },
            ),
        }
    }
}

// ─── Closing ────────────────────────────────────────────────────────────────

/// A GPU without its address range.
pub open spec fn without_range(gpu: PolarisGpu) -> PolarisGpu {
    PolarisGpu {
        va_range_id: 0,
        va_range_base: 0,
        va_range_length: 0,
        va_block_size: 0,
        va_range_flags: 0,
        va_range_registered: false,
        next_va_offset: 0,
        ..gpu
    }
}

/// The state after the range that a handle registered is withdrawn, if it is
/// still the one in use.
pub open spec fn withdrawing_range(v: PolarisView, d: DeviceView) -> PolarisView {
    if d.va_range_id == 0 {
        v
    } else {
        match v.find_gpu(d.va_gpu) {
            Some(g) => if v.gpus[g].va_range_id == d.va_range_id {
                PolarisView { gpus: v.gpus.update(g, without_range(v.gpus[g])), ..v }
            } else {
                v
            },
            None => v,
        }
    }
}

/// Address spaces on a GPU.
pub open spec fn va_space_on(gpu_id: u32) -> spec_fn(PolarisVaSpace) -> bool {
    |s: PolarisVaSpace| s.gpu_id == gpu_id
}

/// Blocks on a GPU.
pub open spec fn block_on(gpu_id: u32) -> spec_fn(PolarisBlock) -> bool {
    |b: PolarisBlock| b.home_gpu == gpu_id
}

/// Sessions on a GPU.
pub open spec fn session_on(gpu_id: u32) -> spec_fn(SessionView) -> bool {
    |s: SessionView| s.home_gpu == gpu_id
}

/// Something still refers to the GPU.
pub open spec fn gpu_in_use(v: PolarisView, gpu_id: u32) -> bool {
    any(v.va_spaces, va_space_on(gpu_id)) || any(v.blocks, block_on(gpu_id)) || any(
        v.sessions,
        session_on(gpu_id),
    )
}

/// Other GPUs.
pub open spec fn gpu_is_not(gpu_id: u32) -> spec_fn(PolarisGpu) -> bool {
    |g: PolarisGpu| g.gpu_id != gpu_id
}

/// The state after the GPUs on a list are dropped, as far as nothing refers to
/// them.
pub open spec fn reaping(v: PolarisView, ids: Seq<u32>) -> PolarisView
    decreases ids.len(),
{
    if ids.len() == 0 {
        v
    } else {
        let w = reaping(v, ids.drop_last());
        if gpu_in_use(w, ids.last()) {
            w
        } else {
            PolarisView { gpus: w.gpus.filter(gpu_is_not(ids.last())), ..w }
        }
    }
}

/// A block after its executor is gone: what was in flight is lost.
pub open spec fn abandoned(b: PolarisBlock) -> PolarisBlock {
    if b.state.pending() {
        PolarisBlock {
            state: PolarisBlockState::Evicted,
            pending_decision_id: 0,
            waiter: 0,
            ..b.without_rm_backing()
        }
    } else {
        b
    }
}

/// Blocks with a handler that waits for an executor that is gone.
pub open spec fn stranded() -> spec_fn(PolarisBlock) -> bool {
    |b: PolarisBlock| b.state.pending() && b.waiter != 0
}

/// The state with one executor less.
pub open spec fn one_executor_less(v: PolarisView) -> PolarisView {
    PolarisView {
        daemon_attached: if v.daemon_attached == 0 {
            0
        } else {
            (v.daemon_attached - 1) as u32
        },
        ..v
    }
}

/// The state after an executor is gone.
pub open spec fn detaching(v: PolarisView, d: DeviceView) -> PolarisView {
    let x = reaping(one_executor_less(withdrawing_range(v, d)), d.inserted_gpus);
    PolarisView {
        blocks: x.blocks.map_values(|b: PolarisBlock| abandoned(b)),
        pending_decisions: Seq::empty(),
        ..x
    }
}

/// The state after a handle is closed.
pub open spec fn closing(v: PolarisView, d: DeviceView) -> PolarisView {
    let w = if d.registered_gpu {
        detaching(v, d)
    } else {
        v
    };
    if d.v4_token != 0 {
        without_contents(
            PolarisView {
                va_spaces: w.va_spaces.filter(
                    va_space_is_not(d.v4_gpu, d.v4_client, d.v4_token),
                ),
                ..w
            },
            d.v4_gpu,
            d.v4_client,
            d.v4_token,
        )
    } else {
        w
    }
}

// ─── Laws ───────────────────────────────────────────────────────────────────

/// A passing user changes no capacity of a GPU that is known, and takes it away
/// with its handle in no case.
pub proof fn law_transient_user_leaves_known_gpu(
    v: PolarisView,
    d: DeviceView,
    arg: PolarisRegisterGpuArg,
    g: int,
)
    requires
        v.find_gpu(arg.gpu_id) == Some(g),
        transient(arg),
    ensures
        ({
            let (r, w, e) = registering_gpu(v, d, arg);
            &&& r is Ok
            &&& w.gpus == v.gpus.update(g, PolarisGpu { healthy: true, ..v.gpus[g] })
            &&& e.inserted_gpus == d.inserted_gpus
        }),
{
}

/// A handle that brought a GPU in takes it away when it is closed and nothing
/// refers to the GPU.
pub proof fn law_closing_reaps_unused_gpu(v: PolarisView, d: DeviceView, gpu_id: u32)
    requires
        d.registered_gpu,
        d.inserted_gpus.contains(gpu_id),
        !gpu_in_use(v, gpu_id),
    ensures
        forall|i: int|
            0 <= i < closing(v, d).gpus.len() ==> (#[trigger] closing(v, d).gpus[i]).gpu_id
                != gpu_id,
{
    lemma_reaping(one_executor_less(withdrawing_range(v, d)), d.inserted_gpus);
}

/// Reaping changes the table of GPUs alone; it leaves none that is on the list
/// and unused, and takes none that is not on the list.
pub proof fn lemma_reaping(v: PolarisView, ids: Seq<u32>)
    ensures
        ({
            let w = reaping(v, ids);
            &&& w == PolarisView { gpus: w.gpus, ..v }
            &&& forall|i: int|
                0 <= i < w.gpus.len() ==> !(ids.contains((#[trigger] w.gpus[i]).gpu_id)
                    && !gpu_in_use(v, w.gpus[i].gpu_id))
            &&& forall|x: PolarisGpu|
                #[trigger]
                v.gpus.contains(x) && (!ids.contains(x.gpu_id) || gpu_in_use(v, x.gpu_id))
                    ==> w.gpus.contains(x)
            &&& forall|x: PolarisGpu| #[trigger] w.gpus.contains(x) ==> v.gpus.contains(x)
        }),
    decreases ids.len(),
{
    if ids.len() > 0 {
        let init = ids.drop_last();
        lemma_reaping(v, init);
        let before = reaping(v, init);
        let after = reaping(v, ids);
        let id = ids.last();
        assert(ids[ids.len() - 1] == id);
        assert forall|x: u32| ids.contains(x) implies init.contains(x) || x == id by {
            let k = choose|k: int| 0 <= k < ids.len() && ids[k] == x;
            if k < init.len() {
                assert(init[k] == x);
            }
        }
        assert forall|x: u32| init.contains(x) implies ids.contains(x) by {
            let k = choose|k: int| 0 <= k < init.len() && init[k] == x;
            assert(ids[k] == x);
        }
        assert(gpu_in_use(before, id) == gpu_in_use(v, id));
        if !gpu_in_use(before, id) {
            crate::seqs::lemma_filter_members(before.gpus, gpu_is_not(id));
            assert forall|i: int| 0 <= i < after.gpus.len() implies !(ids.contains(
                (#[trigger] after.gpus[i]).gpu_id,
            ) && !gpu_in_use(v, after.gpus[i].gpu_id)) by {
                assert(after.gpus.contains(after.gpus[i]));
                let k = choose|k: int|
                    0 <= k < before.gpus.len() && before.gpus[k] == after.gpus[i];
                assert(!(init.contains(before.gpus[k].gpu_id) && !gpu_in_use(
                    v,
                    before.gpus[k].gpu_id,
                )));
            }
        }
    }
}

/// Closing a handle that registered nothing changes nothing.
pub proof fn law_closing_fresh_handle_changes_nothing(v: PolarisView)
    ensures
        closing(v, fresh_device()) == v,
{
}

// ─── Handling ───────────────────────────────────────────────────────────────

impl PolarisDevice {
    /// Open a handle.
    pub fn open() -> (r: PolarisDevice)
        ensures
            r@ == fresh_device(),
    {
        PolarisDevice {
            registered_gpu: false,
            inserted_gpus: Vec::new(),
            va_gpu: 0,
            va_range_id: 0,
            v4_gpu: 0,
            v4_client: 0,
            v4_token: 0,
        }
    }
}

/// Who is to be woken when a handle is closed: with an executor, those who wait for it.
pub open spec fn woken_by_closing(v: PolarisView, d: DeviceView) -> Seq<u64> {
    if d.registered_gpu {
        v.blocks.filter(stranded()).map_values(|b: PolarisBlock| b.waiter)
    } else {
        Seq::empty()
    }
}

/// What comes of choosing a policy: it is in force, and what the one before did is not
/// counted for it.
pub open spec fn policy_set(
    v: PolarisView,
    arg: PolarisSetPolicyArg,
    r: Result<(), i32>,
    w: PolarisView,
) -> bool {
    &&& arg.policy > 3 ==> r == Err::<(), i32>(EINVAL) && w == v
    &&& arg.policy <= 3 ==> {
        &&& r is Ok
        &&& w == (PolarisView {
            eviction_policy: w.eviction_policy,
            offload_count: 0,
            reload_count: 0,
            ..v
        })
        &&& w.eviction_policy.code() == arg.policy
    }
}

impl PolarisInner {
    /// Register a GPU through the handle `dev`.
    pub fn register_gpu(&mut self, dev: &mut PolarisDevice, arg: PolarisRegisterGpuArg) -> (r: Result<
        (),
        i32,
    >)
        requires
            old(self)@.daemon_attached < u32::MAX,
        ensures
            (r, final(self)@, final(dev)@) == registering_gpu(old(self)@, old(dev)@, arg),
    {
        let passing = arg._reserved & POLARIS_REGISTER_GPU_FLAG_TRANSIENT != 0;
        match self.find_gpu(arg.gpu_id) {
            Some(g) => {
                if !passing {
                    if arg.total_bytes != 0 {
                        self.gpus[g].total_bytes = arg.total_bytes;
                    }
                    if arg.budget_bytes != 0 {
                        self.gpus[g].budget_bytes = arg.budget_bytes;
                    }
                    if arg.cpu_pool_bytes != 0 {
                        self.gpus[g].cpu_pool_total_bytes = arg.cpu_pool_bytes;
                    }
                }
                self.gpus[g].healthy = true;
            },
            None => {
                if arg.total_bytes == 0 || arg.budget_bytes == 0 {
                    return Err(ENOENT);
                }
                self.gpus.push(
                    PolarisGpu {
                        gpu_id: arg.gpu_id,
                        total_bytes: arg.total_bytes,
                        used_bytes: 0,
                        budget_bytes: arg.budget_bytes,
                        pressure_score: 0,
                        cpu_pool_total_bytes: arg.cpu_pool_bytes,
                        cpu_pool_used_bytes: 0,
                        va_range_id: 0,
                        va_range_base: 0,
                        va_range_length: 0,
                        va_block_size: 0,
                        va_range_flags: 0,
                        va_range_registered: false,
                        healthy: true,
                        next_va_offset: 0,
                    },
                );
                dev.inserted_gpus.push(arg.gpu_id);
            },
        }
        if !dev.registered_gpu {
            dev.registered_gpu = true;
            self.daemon_attached = self.daemon_attached + 1;
        }
        Ok(())
    }

    /// Take a range of GPU addresses over through the handle `dev`.
    pub fn register_va_range(&mut self, dev: &mut PolarisDevice, arg: PolarisRegisterVaRangeArg) -> (r:
        Result<PolarisRegisterVaRangeArg, i32>)
        requires
            old(self)@.next_range_id < u64::MAX,
        ensures
            (r, final(self)@, final(dev)@) == registering_range(old(self)@, old(dev)@, arg),
    {
        if !dev.registered_gpu {
            return Err(EPERM);
        }
        if arg.length == 0 || arg.block_size == 0 {
            return Err(EINVAL);
        }
        let mut range_id: u64 = arg.range_id;
        if range_id == 0 {
            range_id = ((arg.gpu_id as u64) << 32) | self.next_range_id;
            self.next_range_id = self.next_range_id + 1;
        }
        let g: usize = match self.find_gpu(arg.gpu_id) {
            Some(g) => g,
            None => {
                return Err(ENOENT);
            },
        };
        self.gpus[g].va_range_id = range_id;
        self.gpus[g].va_range_base = arg.base;
        self.gpus[g].va_range_length = arg.length;
        self.gpus[g].va_block_size = arg.block_size;
        self.gpus[g].va_range_flags = arg.flags;
        self.gpus[g].va_range_registered = true;
        dev.va_gpu = arg.gpu_id;
        dev.va_range_id = range_id;
        Ok(PolarisRegisterVaRangeArg { range_id, ..arg })
    }

    /// Choose the eviction policy; its counters start anew.
    pub fn set_policy(&mut self, arg: PolarisSetPolicyArg) -> (r: Result<(), i32>)
        ensures
            policy_set(old(self)@, arg, r, final(self)@),
    {
        match crate::abi::PolarisEvictionPolicy::from_u32(arg.policy) {
            Some(p) => {
                self.eviction_policy = p;
                self.offload_count = 0;
                self.reload_count = 0;
                Ok(())
            },
            None => Err(EINVAL),
        }
    }

    /// Whether something still refers to a GPU.
    fn is_gpu_in_use(&self, gpu_id: u32) -> (r: bool)
        ensures
            r == gpu_in_use(self@, gpu_id),
    {
        proof {
            crate::seqs::lemma_first_index(self@.va_spaces, va_space_on(gpu_id));
            crate::seqs::lemma_first_index(self@.blocks, block_on(gpu_id));
        }
        if find(
            &self.va_spaces,
            |s: &PolarisVaSpace| -> (x: bool)
                ensures
                    x == va_space_on(gpu_id)(*s)
                { s.gpu_id == gpu_id },
            Ghost(va_space_on(gpu_id)),
        ).is_some() {
            return true;
        }
        if find(
            &self.blocks,
            |b: &PolarisBlock| -> (x: bool)
                ensures
                    x == block_on(gpu_id)(*b)
                { b.home_gpu == gpu_id },
            Ghost(block_on(gpu_id)),
        ).is_some() {
            return true;
        }
        let mut i: usize = 0;
        while i < self.sessions.len()
            invariant
                0 <= i <= self.sessions@.len(),
                forall|k: int| 0 <= k < i ==> !session_on(gpu_id)(#[trigger] self@.sessions[k]),
            decreases self.sessions@.len() - i,
        {
            assert(self.sessions@[i as int]@ == self@.sessions[i as int]);
            if self.sessions[i].home_gpu == gpu_id {
                assert(session_on(gpu_id)(self@.sessions[i as int]));
                return true;
            }
            i += 1;
        }
        false
    }

    /// Drop the GPUs on a list, as far as nothing refers to them.
    fn reap_gpus(&mut self, ids: &Vec<u32>)
        ensures
            final(self)@ == reaping(old(self)@, ids@),
    {
        let ghost v = self@;
        let mut i: usize = 0;
        while i < ids.len()
            invariant
                0 <= i <= ids@.len(),
                self@ == reaping(v, ids@.take(i as int)),
            decreases ids@.len() - i,
        {
            let id: u32 = ids[i];
            assert(ids@.take(i as int + 1).drop_last() =~= ids@.take(i as int));
            if !self.is_gpu_in_use(id) {
                retain(
                    &mut self.gpus,
                    |g: &PolarisGpu| -> (x: bool)
                        ensures
                            x == gpu_is_not(id)(*g)
                        { g.gpu_id != id },
                    Ghost(gpu_is_not(id)),
                );
            }
            i += 1;
        }
        assert(ids@.take(i as int) =~= ids@);
    }

    /// Withdraw the range that a handle registered, if it is still the one in use.
    fn withdraw_range(&mut self, dev: &PolarisDevice)
        ensures
            final(self)@ == withdrawing_range(old(self)@, dev@),
    {
        if dev.va_range_id != 0 {
            if let Some(g) = self.find_gpu(dev.va_gpu) {
                if self.gpus[g].va_range_id == dev.va_range_id {
                    let mut gpu = self.gpus[g];
                    gpu.va_range_id = 0;
                    gpu.va_range_base = 0;
                    gpu.va_range_length = 0;
                    gpu.va_block_size = 0;
                    gpu.va_range_flags = 0;
                    gpu.va_range_registered = false;
                    gpu.next_va_offset = 0;
                    self.gpus[g] = gpu;
                }
            }
        }
    }

    /// Give up every operation in flight, and say which waiters to wake.
    fn abandon_blocks(&mut self) -> (woken: Vec<u64>)
        ensures
            final(self)@ == (PolarisView {
                blocks: old(self)@.blocks.map_values(|b: PolarisBlock| abandoned(b)),
                ..old(self)@
            }),
            woken@ == old(self)@.blocks.filter(stranded()).map_values(|b: PolarisBlock| b.waiter),
    {
        let mut woken: Vec<u64> = Vec::new();
        let ghost x = self@;
        proof {
            reveal(Seq::filter);
            assert(x.blocks.take(0).filter(stranded()) =~= Seq::empty());
        }
        let mut i: usize = 0;
        while i < self.blocks.len()
            invariant
                0 <= i <= x.blocks.len(),
                self.blocks@.len() == x.blocks.len(),
                self@ == (PolarisView { blocks: self.blocks@, ..x }),
                forall|k: int| 0 <= k < i ==> #[trigger] self.blocks@[k] == abandoned(x.blocks[k]),
                forall|k: int|
                    i <= k < x.blocks.len() ==> #[trigger] self.blocks@[k] == x.blocks[k],
                woken@ == x.blocks.take(i as int).filter(stranded()).map_values(
                    |b: PolarisBlock| b.waiter,
                ),
            decreases x.blocks.len() - i,
        {
            let mut block = self.blocks[i];
            proof {
                reveal(Seq::filter);
                assert(x.blocks.take(i as int + 1).drop_last() =~= x.blocks.take(i as int));
                assert(x.blocks.take(i as int + 1).last() == block);
            }
            if block.state.is_pending() {
                let waiter: u64 = block.waiter;
                block.state = PolarisBlockState::Evicted;
                block.pending_decision_id = 0;
                block.clear_rm_backing();
                block.waiter = 0;
                self.blocks[i] = block;
                if waiter != 0 {
                    woken.push(waiter);
                }
            }
            assert(woken@ =~= x.blocks.take(i as int + 1).filter(stranded()).map_values(
                |b: PolarisBlock| b.waiter,
            ));
            i += 1;
        }
        assert(x.blocks.take(i as int) =~= x.blocks);
        assert(self.blocks@ =~= x.blocks.map_values(|b: PolarisBlock| abandoned(b)));
        woken
    }

    /// Close the handle `dev`, and say which waiters to wake: those of the blocks
    /// whose operation is lost with the executor, in the order of the table.
    pub fn close(&mut self, dev: PolarisDevice) -> (woken: Vec<u64>)
        ensures
            final(self)@ == closing(old(self)@, dev@),
            woken@ == woken_by_closing(old(self)@, dev@),
    {
        let mut woken: Vec<u64> = Vec::new();
        let ghost v = self@;
        if dev.registered_gpu {
            self.withdraw_range(&dev);
            if self.daemon_attached > 0 {
                self.daemon_attached = self.daemon_attached - 1;
            }
            proof {
                lemma_reaping(self@, dev@.inserted_gpus);
            }
            self.reap_gpus(&dev.inserted_gpus);
            woken = self.abandon_blocks();
            self.pending_decisions.clear();
            assert(self@ =~= detaching(v, dev@));
        }
        if dev.v4_token != 0 {
            let gpu: u32 = dev.v4_gpu;
            let client: u64 = dev.v4_client;
            let token: u64 = dev.v4_token;
            retain(
                &mut self.va_spaces,
                |s: &PolarisVaSpace| -> (x: bool)
                    ensures
                        x == va_space_is_not(gpu, client, token)(*s)
                    {
                        !(s.gpu_id == gpu && s.rm_client_token == client && s.va_space_token
                            == token)
                    },
                Ghost(va_space_is_not(gpu, client, token)),
            );
            self.drop_contents(gpu, client, token);
        }
        woken
    }
}

} // verus!
