//! What the executors of decisions share: the calls that they make to the
//! driver, the replies, and how memory is brought up step by step.

use crate::abi::PolarisRmCopyArg;
use crate::errno::{EFAULT, EINVAL, ENOMEM};
use crate::rm::{NvMemoryAllocationParameters, NvOs00Parameters, RmReply};
use vstd::prelude::*;

verus! {

/// What became of a decision.
#[derive(Clone, Copy, Debug, PartialEq, Eq, Default)]
pub struct ExecutionResult {
    pub result: i32,
    pub output_handle: u64,
    pub output_cpu_addr: u64,
    pub rm_control_fd: i32,
    pub rm_h_client: u32,
    pub rm_h_memory: u32,
    pub rm_backing_length: u64,
}

impl ExecutionResult {
    /// A result without memory.
    pub open spec fn plain(result: int, output_handle: u64, output_cpu_addr: u64) -> ExecutionResult {
        ExecutionResult {
            result: result as i32,
            output_handle,
            output_cpu_addr,
            rm_control_fd: 0,
            rm_h_client: 0,
            rm_h_memory: 0,
            rm_backing_length: 0,
        }
    }

    /// A failure with an error number.
    pub open spec fn failure(errno: i32) -> ExecutionResult {
        ExecutionResult::plain(-errno, 0, 0)
    }

    /// A result without memory.
    pub fn of(result: i32, output_handle: u64, output_cpu_addr: u64) -> (r: ExecutionResult)
        ensures
            r == ExecutionResult::plain(result as int, output_handle, output_cpu_addr),
    {
        ExecutionResult {
            result,
            output_handle,
            output_cpu_addr,
            rm_control_fd: 0,
            rm_h_client: 0,
            rm_h_memory: 0,
            rm_backing_length: 0,
        }
    }

    /// A failure with an error number.
    pub fn failed(errno: i32) -> (r: ExecutionResult)
        requires
            errno > i32::MIN,
        ensures
            r == ExecutionResult::failure(errno),
    {
        ExecutionResult::of(-errno, 0, 0)
    }
}

/// A call to the driver.
#[derive(Clone, Copy, Debug, PartialEq, Eq)]
pub enum DeviceCall {
    /// Make memory; the reply has its handle.
    CreatePhysical { size: u64 },
    /// Map memory at an address.
    MapMemory { vaddr: u64, handle: u64, size: u64 },
    /// Let the device read and write at an address.
    SetAccess { vaddr: u64, size: u64 },
    /// Take away what is mapped at an address.
    UnmapMemory { vaddr: u64, size: u64 },
    /// Give memory back.
    ReleasePhysical { handle: u64 },
    /// Copy on the device.
    CopyDeviceToDevice { dst: u64, src: u64, size: u64 },
    /// Copy from the device.
    CopyDeviceToHost { dst: u64, src: u64, size: u64 },
    /// Copy to the device.
    CopyHostToDevice { dst: u64, src: u64, size: u64 },
    /// Ask the resource manager for memory.
    RmAlloc { params: NvMemoryAllocationParameters },
    /// Give memory back to the resource manager.
    RmFree { free: NvOs00Parameters },
    /// Copy between memory of the resource manager and the host; the reply has
    /// the number of bytes copied.
    RmCopy { arg: PolarisRmCopyArg },
}

/// What came back from the driver. The error number is zero where the call
/// worked.
#[derive(Clone, Copy, Debug, PartialEq, Eq)]
pub struct Reply {
    pub errno: i32,
    pub handle: u64,
    pub bytes: u64,
    pub rm: RmReply,
}

/// Calls that are still to be made when a decision is done, whose outcome does
/// not matter.
#[derive(Clone, Copy, Debug, PartialEq, Eq)]
pub enum After {
    Nothing,
    One(DeviceCall),
    Two(DeviceCall, DeviceCall),
}

// ─── Bringing memory up ─────────────────────────────────────────────────────

/// What new memory is filled with.
#[derive(Clone, Copy, Debug, PartialEq, Eq)]
pub enum Fill {
    Nothing,
    /// The bytes at an address of the device.
    Device(u64),
    /// The bytes at an address of the host.
    Host(u64),
}

/// What was asked of the driver last.
#[derive(Clone, Copy, PartialEq, Eq, Structural, Debug)]
pub enum Stage {
    Create,
    Mapping,
    Access,
    Copying,
}

/// Memory that is being brought up at an address: made, mapped, made
/// accessible, filled.
#[derive(Clone, Copy, Debug, PartialEq, Eq)]
pub struct Bring {
    pub stage: Stage,
    pub vaddr: u64,
    pub size: u64,
    /// The memory, once it was made.
    pub phys: u64,
    pub fill: Fill,
}

/// How bringing memory up goes on.
#[derive(Clone, Copy, Debug, PartialEq, Eq)]
pub enum Brought {
    Ask { call: DeviceCall, bring: Bring },
    Failed { errno: i32, after: After },
    Up { phys: u64 },
}

impl Bring {
    /// What was asked of the driver last.
    pub open spec fn call(self) -> DeviceCall {
        match self.stage {
            Stage::Create => DeviceCall::CreatePhysical { size: self.size },
            Stage::Mapping => DeviceCall::MapMemory {
                vaddr: self.vaddr,
                handle: self.phys,
                size: self.size,
            },
            Stage::Access => DeviceCall::SetAccess { vaddr: self.vaddr, size: self.size },
            Stage::Copying => match self.fill {
                Fill::Host(src) => DeviceCall::CopyHostToDevice {
                    dst: self.vaddr,
                    src,
                    size: self.size,
                },
                Fill::Device(src) => DeviceCall::CopyDeviceToDevice {
                    dst: self.vaddr,
                    src,
                    size: self.size,
                },
                Fill::Nothing => DeviceCall::SetAccess { vaddr: self.vaddr, size: self.size },
            },
        }
    }

    /// What gives back memory that is not mapped.
    pub open spec fn released(self) -> After {
        After::One(DeviceCall::ReleasePhysical { handle: self.phys })
    }

    /// What gives back memory that is mapped.
    pub open spec fn undone(self) -> After {
        After::Two(
            DeviceCall::UnmapMemory { vaddr: self.vaddr, size: self.size },
            DeviceCall::ReleasePhysical { handle: self.phys },
        )
    }

    /// How it goes on after a reply.
    pub open spec fn next(self, reply: Reply) -> Brought {
        let failed = reply.errno != 0;
        match self.stage {
            Stage::Create => if failed {
                Brought::Failed { errno: ENOMEM, after: After::Nothing }
            } else {
                asking(Bring { stage: Stage::Mapping, phys: reply.handle, ..self })
            },
            Stage::Mapping => if failed {
                Brought::Failed { errno: EINVAL, after: self.released() }
            } else {
                asking(Bring { stage: Stage::Access, ..self })
            },
            Stage::Access => if failed {
                Brought::Failed { errno: EINVAL, after: self.undone() }
            } else if self.fill is Nothing {
                Brought::Up { phys: self.phys }
            } else {
                asking(Bring { stage: Stage::Copying, ..self })
            },
            Stage::Copying => if failed {
                Brought::Failed { errno: EFAULT, after: self.undone() }
            } else {
                Brought::Up { phys: self.phys }
            },
        }
    }

    /// Begin to bring memory up.
    pub fn new(vaddr: u64, size: u64, fill: Fill) -> (r: Bring)
        ensures
            r == (Bring { stage: Stage::Create, vaddr, size, phys: 0, fill }),
    {
        Bring { stage: Stage::Create, vaddr, size, phys: 0, fill }
    }

    /// What is asked of the driver.
    pub fn to_call(&self) -> (r: DeviceCall)
        ensures
            r == self.call(),
    {
        match self.stage {
            Stage::Create => DeviceCall::CreatePhysical { size: self.size },
            Stage::Mapping => DeviceCall::MapMemory {
                vaddr: self.vaddr,
                handle: self.phys,
                size: self.size,
            },
            Stage::Access => DeviceCall::SetAccess { vaddr: self.vaddr, size: self.size },
            Stage::Copying => match self.fill {
                Fill::Host(src) => DeviceCall::CopyHostToDevice {
                    dst: self.vaddr,
                    src,
                    size: self.size,
                },
                Fill::Device(src) => DeviceCall::CopyDeviceToDevice {
                    dst: self.vaddr,
                    src,
                    size: self.size,
                },
                Fill::Nothing => DeviceCall::SetAccess { vaddr: self.vaddr, size: self.size },
            },
        }
    }

    /// Ask for the next thing.
    fn ask(self) -> (r: Brought)
        ensures
            r == asking(self),
    {
        Brought::Ask { call: self.to_call(), bring: self }
    }

    /// How it goes on after a reply.
    pub fn step(&self, reply: &Reply) -> (r: Brought)
        ensures
            r == self.next(*reply),
    {
        let failed = reply.errno != 0;
        let release = DeviceCall::ReleasePhysical { handle: self.phys };
        let unmap = DeviceCall::UnmapMemory { vaddr: self.vaddr, size: self.size };
        match self.stage {
            Stage::Create => if failed {
                Brought::Failed { errno: ENOMEM, after: After::Nothing }
            } else {
                Bring { stage: Stage::Mapping, phys: reply.handle, ..*self }.ask()
            },
            Stage::Mapping => if failed {
                Brought::Failed { errno: EINVAL, after: After::One(release) }
            } else {
                Bring { stage: Stage::Access, ..*self }.ask()
            },
            Stage::Access => if failed {
                Brought::Failed { errno: EINVAL, after: After::Two(unmap, release) }
            } else {
                match self.fill {
                    Fill::Nothing => Brought::Up { phys: self.phys },
                    _ => Bring { stage: Stage::Copying, ..*self }.ask(),
                }
            },
            Stage::Copying => if failed {
                Brought::Failed { errno: EFAULT, after: After::Two(unmap, release) }
            } else {
                Brought::Up { phys: self.phys }
            },
        }
    }
}

/// Ask for the next thing.
pub open spec fn asking(bring: Bring) -> Brought {
    Brought::Ask { call: bring.call(), bring }
}

// ─── What a failure leaves behind ───────────────────────────────────────────

/// What the driver holds: memory, and what is mapped where.
#[verifier::ext_equal]
pub struct DriverView {
    pub live: Set<u64>,
    pub mapped: Map<u64, (u64, u64)>,
}

impl DriverView {
    /// What the driver holds after a call with a reply.
    pub open spec fn called(self, call: DeviceCall, reply: Reply) -> DriverView {
        if reply.errno != 0 {
            self
        } else {
            match call {
                DeviceCall::CreatePhysical { .. } => DriverView {
                    live: self.live.insert(reply.handle),
                    ..self
                },
                DeviceCall::MapMemory { vaddr, handle, size } => DriverView {
                    mapped: self.mapped.insert(vaddr, (handle, size)),
                    ..self
                },
                DeviceCall::UnmapMemory { vaddr, .. } => DriverView {
                    mapped: self.mapped.remove(vaddr),
                    ..self
                },
                DeviceCall::ReleasePhysical { handle } => DriverView {
                    live: self.live.remove(handle),
                    ..self
                },
                _ => self,
            }
        }
    }

    /// What the driver holds after the last calls, if they work.
    pub open spec fn cleaned(self, after: After, reply: Reply) -> DriverView {
        match after {
            After::Nothing => self,
            After::One(a) => self.called(a, reply),
            After::Two(a, b) => self.called(a, reply).called(b, reply),
        }
    }

    /// What the driver holds while memory is brought up, over what it held
    /// before.
    pub open spec fn while_bringing(self, bring: Bring) -> DriverView {
        match bring.stage {
            Stage::Create => self,
            Stage::Mapping => DriverView { live: self.live.insert(bring.phys), ..self },
            _ => self.with_up(bring.vaddr, bring.phys, bring.size),
        }
    }

    /// With memory that is up at an address.
    pub open spec fn with_up(self, vaddr: u64, phys: u64, size: u64) -> DriverView {
        DriverView {
            live: self.live.insert(phys),
            mapped: self.mapped.insert(vaddr, (phys, size)),
        }
    }
}

/// Whatever the driver answers, step by step: while memory is brought up, the
/// driver holds what the step says; a failure at any step leaves it with exactly
/// what it held before, once the last calls were made; success leaves the memory
/// mapped.
pub proof fn law_bringing_up_all_or_nothing(
    start: DriverView,
    bring: Bring,
    reply: Reply,
    works: Reply,
)
    requires
        !start.mapped.contains_key(bring.vaddr),
        bring.stage is Create ==> !start.live.contains(reply.handle),
        !(bring.stage is Create) ==> !start.live.contains(bring.phys),
        works.errno == 0,
    ensures
        ({
            let now = start.while_bringing(bring).called(bring.call(), reply);
            match bring.next(reply) {
                Brought::Ask { call, bring: next } => {
                    &&& now == start.while_bringing(next)
                    &&& call == next.call()
                    &&& next.vaddr == bring.vaddr
                    &&& !(next.stage is Create)
                    &&& !start.live.contains(next.phys)
                },
                Brought::Failed { after, .. } => now.cleaned(after, works) == start,
                Brought::Up { phys } => now == start.with_up(bring.vaddr, phys, bring.size),
            }
        }),
{
    assert(start.mapped.insert(bring.vaddr, (bring.phys, bring.size)).remove(bring.vaddr)
        =~= start.mapped);
    assert(start.live.insert(bring.phys).remove(bring.phys) =~= start.live
        || start.live.contains(bring.phys));
    let now = start.while_bringing(bring).called(bring.call(), reply);
    if let Brought::Failed { after, .. } = bring.next(reply) {
        assert(now.cleaned(after, works) =~= start);
    }
}

/// Bringing memory up ends after at most four replies.
pub open spec fn steps_left(bring: Bring) -> int {
    match bring.stage {
        Stage::Create => 4,
        Stage::Mapping => 3,
        Stage::Access => 2,
        Stage::Copying => 1,
    }
}

/// Each reply brings the end nearer.
pub proof fn law_bringing_up_ends(bring: Bring, reply: Reply)
    ensures
        bring.next(reply) matches Brought::Ask { bring: next, .. } ==> 0 < steps_left(next)
            < steps_left(bring),
{
}

} // verus!
